//! Laws relating parsing and rendering of effect chains.
use vstd::prelude::*;

use crate::chain::{
    chain_from, chain_outcome, command_end_from, ends_command, lemma_chain_from_segments,
    render_from, segments_well_formed, ChainOutcome, ChainView, CommandView,
};
use crate::commands::args_outcome;
use crate::registry::{
    lemma_canonical_name_resolves, lemma_canonical_not_control, resolution, spec_table, table_len,
    Resolution,
};

verus! {

/// Whether `cmd` is a command as parsing builds it: named by the canonical
/// name of an implemented effect and carrying its kind, with arguments its
/// kind accepts, none of which ends a command.
pub open spec fn command_ok(cmd: CommandView) -> bool {
    &&& exists|d: int|
        0 <= d < table_len() && #[trigger] spec_table(d).canonical_name == cmd.name
            && spec_table(d).kind == cmd.kind
    &&& args_outcome(cmd.kind, cmd.name, cmd.args) is None
    &&& forall|j: int| 0 <= j < cmd.args.len() ==> !ends_command(#[trigger] cmd.args[j])
}

/// Whether `c` is a chain as parsing builds it.
pub open spec fn chain_ok(c: ChainView) -> bool {
    &&& forall|k: int| 0 <= k < c.commands.len() ==> command_ok(#[trigger] c.commands[k])
    &&& segments_well_formed(c)
}

/// Lemma: no token before the command end ends a command.
proof fn lemma_command_end_clear(values: Seq<Seq<char>>, k: int)
    requires
        0 <= k,
    ensures
        forall|j: int| k <= j < command_end_from(values, k) ==> !ends_command(#[trigger] values[j]),
    decreases values.len() - k,
{
    if k < values.len() && !ends_command(values[k]) {
        lemma_command_end_clear(values, k + 1);
    }
}

/// Lemma: parsing only builds commands of the kind `command_ok` describes.
proof fn lemma_chain_from_commands_ok(
    values: Seq<Seq<char>>,
    offset: int,
    cmds: Seq<CommandView>,
    bounds: Seq<nat>,
    pending: Option<int>,
)
    requires
        forall|k: int| 0 <= k < cmds.len() ==> command_ok(#[trigger] cmds[k]),
    ensures
        chain_from(values, offset, cmds, bounds, pending) matches ChainOutcome::Done(c) ==> forall|
            k: int,
        |
            0 <= k < c.commands.len() ==> command_ok(#[trigger] c.commands[k]),
    decreases values.len() - offset,
{
    if offset < values.len() && offset >= 0 {
        let v = values[offset];
        if v == ":"@ {
            if !(cmds.len() == 0 || pending is Some) {
                lemma_chain_from_commands_ok(
                    values,
                    offset + 1,
                    cmds,
                    bounds.push(cmds.len()),
                    Some(offset),
                );
            }
        } else if !(v == "newfile"@ || v == "restart"@) {
            match resolution(v) {
                Resolution::Found(i) => {
                    let d = spec_table(i);
                    let end = command_end_from(values, offset + 1);
                    let args = values.subrange(offset + 1, end);
                    let cmd = CommandView { kind: d.kind, name: d.canonical_name, args };
                    if args_outcome(d.kind, d.canonical_name, args) is None && offset < end
                        <= values.len() {
                        lemma_command_end_clear(values, offset + 1);
                        assert forall|j: int| 0 <= j < args.len() implies !ends_command(
                            #[trigger] args[j],
                        ) by {
                            assert(args[j] == values[offset + 1 + j]);
                        }
                        crate::registry::lemma_found_in_table(v);
                        assert(0 <= i < table_len());
                        assert(spec_table(i).canonical_name == cmd.name);
                        let nc = cmds.push(cmd);
                        assert forall|k: int| 0 <= k < nc.len() implies command_ok(
                            #[trigger] nc[k],
                        ) by {
                            if k < cmds.len() {
                                assert(nc[k] == cmds[k]);
                            }
                        }
                        lemma_chain_from_commands_ok(values, end, nc, bounds, None);
                    }
                },
                _ => {},
            }
        }
    }
}

/// Lemma: a chain that parsing produces satisfies `chain_ok`.
pub proof fn lemma_parsed_chain_ok(values: Seq<Seq<char>>)
    ensures
        chain_outcome(values) matches ChainOutcome::Done(c) ==> chain_ok(c),
{
    lemma_chain_from_commands_ok(values, 0, Seq::empty(), Seq::empty(), None);
    lemma_chain_from_segments(values, 0, Seq::empty(), Seq::empty(), None);
}

/// Lemma: the command end after `q` is `q + m` when the `m` tokens from `q`
/// do not end a command and the token after them does, or the stream ends
/// there.
proof fn lemma_command_end_at(values: Seq<Seq<char>>, q: int, m: int)
    requires
        0 <= q,
        0 <= m,
        q + m <= values.len(),
        forall|j: int| q <= j < q + m ==> !ends_command(#[trigger] values[j]),
        q + m == values.len() || ends_command(values[q + m]),
    ensures
        command_end_from(values, q) == q + m,
    decreases m,
{
    if m > 0 {
        lemma_command_end_at(values, q + 1, m - 1);
    }
}

/// Lemma: a command's canonical name ends the arguments before it.
proof fn lemma_name_ends_command(cmd: CommandView)
    requires
        command_ok(cmd),
    ensures
        ends_command(cmd.name),
        cmd.name != ":"@,
        cmd.name != "newfile"@,
        cmd.name != "restart"@,
        resolution(cmd.name) matches Resolution::Found(d) && spec_table(d).kind == cmd.kind
            && spec_table(d).canonical_name == cmd.name,
{
    let d = choose|d: int|
        0 <= d < table_len() && #[trigger] spec_table(d).canonical_name == cmd.name
            && spec_table(d).kind == cmd.kind;
    lemma_canonical_name_resolves(d);
    lemma_canonical_not_control(d);
    reveal(ends_command);
}

/// Lemma: the first token rendered from command `k` on ends a command.
proof fn lemma_render_head_ends(c: ChainView, k: int)
    requires
        chain_ok(c),
        0 <= k < c.commands.len(),
    ensures
        render_from(c, k).len() > 0,
        ends_command(render_from(c, k)[0]),
{
    lemma_name_ends_command(c.commands[k]);
    reveal_strlit(":");
    reveal(ends_command);
}

/// Lemma: parsing the rendering of commands `k..` of a well-formed parsed
/// chain, from the state in which commands `..k` were parsed, gives the
/// chain back.
proof fn lemma_render_parses_from(values: Seq<Seq<char>>, c: ChainView, k: int, p: int, t: int)
    requires
        chain_ok(c),
        0 <= k <= c.commands.len(),
        0 <= p <= values.len(),
        values.skip(p) == render_from(c, k),
        0 <= t <= c.boundaries.len(),
        forall|j: int| 0 <= j < t ==> #[trigger] c.boundaries[j] < k,
        forall|j: int| t <= j < c.boundaries.len() ==> #[trigger] c.boundaries[j] >= k,
    ensures
        chain_from(values, p, c.commands.take(k), c.boundaries.take(t), None) == ChainOutcome::Done(
            c,
        ),
    decreases c.commands.len() - k,
{
    let n = c.commands.len() as int;
    let bs = c.boundaries;
    if k == n {
        assert(render_from(c, k).len() == 0);
        assert(values.skip(p).len() == 0);
        if t < bs.len() {
            assert(bs[t] < n);
        }
        assert(c.commands.take(k) =~= c.commands);
        assert(bs.take(t) =~= bs);
    } else {
        let cmd = c.commands[k];
        assert(command_ok(cmd));
        lemma_name_ends_command(cmd);
        let h = bs.contains(k as nat);
        let head: Seq<Seq<char>> = if h {
            seq![":"@]
        } else {
            Seq::empty()
        };
        let rest = render_from(c, k + 1);
        assert(render_from(c, k) == head + seq![cmd.name] + cmd.args + rest);
        let s = values.skip(p);
        let hl = head.len() as int;
        let q = p + hl + 1;
        let m = cmd.args.len() as int;
        assert(values.len() == p + hl + 1 + m + rest.len());
        assert(values[p + hl] == s[hl]);
        assert(values[p + hl] == cmd.name);
        assert forall|j: int| q <= j < q + m implies !ends_command(#[trigger] values[j]) by {
            assert(values[j] == s[j - p]);
            assert(s[j - p] == cmd.args[j - q]);
        }
        if k + 1 < n {
            lemma_render_head_ends(c, k + 1);
            assert(values[q + m] == s[q + m - p]);
            assert(s[q + m - p] == rest[0]);
        }
        lemma_command_end_at(values, q, m);
        let end = q + m;
        assert(values.subrange(q, end) =~= cmd.args) by {
            assert forall|j: int| 0 <= j < m implies values.subrange(q, end)[j] == cmd.args[j] by {
                assert(values[q + j] == s[q + j - p]);
            }
        }
        assert(values.skip(end) =~= rest) by {
            assert forall|j: int| 0 <= j < rest.len() implies values.skip(end)[j] == rest[j] by {
                assert(values[end + j] == s[end + j - p]);
            }
        }
        let d = resolution(cmd.name)->Found_0;
        assert(CommandView { kind: spec_table(d).kind, name: spec_table(d).canonical_name, args: values.subrange(q, end) } == cmd);
        assert(c.commands.take(k).push(cmd) =~= c.commands.take(k + 1));
        if h {
            let b = choose|b: int| 0 <= b < bs.len() && bs[b] == k as nat;
            assert(b == t) by {
                if b < t {
                    assert(bs[b] < k);
                } else if b > t {
                    assert(bs[t] < bs[b]);
                    assert(bs[t] >= k);
                }
            }
            assert(values[p] == s[0]);
            assert(values[p] == ":"@);
            reveal_strlit(":");
            assert(k > 0) by {
                assert(0 < bs[b]);
            }
            assert(c.commands.take(k).len() > 0);
            assert(bs.take(t).push(k as nat) =~= bs.take(t + 1));
            assert forall|j: int| 0 <= j < t + 1 implies #[trigger] bs[j] < k + 1 by {}
            assert forall|j: int| t + 1 <= j < bs.len() implies #[trigger] bs[j] >= k + 1 by {
                assert(bs[t] < bs[j]);
            }
            lemma_render_parses_from(values, c, k + 1, end, t + 1);
            let cmds = c.commands.take(k);
            assert(cmds.len() == k);
            assert(chain_from(values, p + 1, cmds, bs.take(t).push(cmds.len()), Some(p)) == chain_from(
                values,
                end,
                cmds.push(cmd),
                bs.take(t).push(cmds.len()),
                None,
            ));
            assert(chain_from(values, p, cmds, bs.take(t), None) == chain_from(
                values,
                p + 1,
                cmds,
                bs.take(t).push(cmds.len()),
                Some(p),
            ));
        } else {
            assert forall|j: int| t <= j < bs.len() implies #[trigger] bs[j] >= k + 1 by {
                if bs[j] == k {
                    assert(bs.contains(k as nat));
                }
            }
            lemma_render_parses_from(values, c, k + 1, end, t);
            let cmds = c.commands.take(k);
            assert(chain_from(values, p, cmds, bs.take(t), None) == chain_from(
                values,
                end,
                cmds.push(cmd),
                bs.take(t),
                None,
            ));
        }
    }
}

/// Law: rendering a parsed chain gives tokens that parse back to the same
/// chain.
pub proof fn lemma_render_round_trip(values: Seq<Seq<char>>)
    ensures
        chain_outcome(values) matches ChainOutcome::Done(c) ==> chain_outcome(render_from(c, 0))
            == ChainOutcome::Done(c),
{
    lemma_parsed_chain_ok(values);
    match chain_outcome(values) {
        ChainOutcome::Done(c) => {
            let r = render_from(c, 0);
            assert(r.skip(0) =~= r);
            assert(c.commands.take(0) =~= Seq::<CommandView>::empty());
            assert(c.boundaries.take(0) =~= Seq::<nat>::empty());
            lemma_render_parses_from(r, c, 0, 0, 0);
        },
        _ => {},
    }
}

} // verus!
