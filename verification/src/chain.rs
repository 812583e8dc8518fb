//! Effect chains: positional command tokens grouped into resolved commands,
//! with explicit `:` segment boundaries.
//!
//! A command starts at a token that names an implemented effect. Its
//! arguments run up to the next token that names an effect (implemented or
//! tracked SoX-ng), a `:` boundary, or a `newfile`/`restart` control. The
//! same rules serve the flat command-line form ([`parse_effect_chain`]) and
//! effects files.
use vstd::prelude::*;

use crate::command::{args_view, from_name_error, CommandErrorView, EffectCommandParseError};
use crate::commands::{args_outcome, check_command_args};
use crate::registry::{
    descriptor_for_name, is_known_chars, is_known_name, lookup, resolution, resolve_chars, resolves_to, spec_table,
    EffectKind, Resolution,
};
use crate::text::{chars_eq, chars_of};

verus! {

/// One resolved effect command: its kind, canonical name and argument tokens.
#[derive(Debug, Clone, PartialEq, Eq)]
pub struct EffectCommand {
    kind: EffectKind,
    name: &'static str,
    args: Vec<String>,
}

/// The mathematical content of an [`EffectCommand`].
pub struct CommandView {
    pub kind: EffectKind,
    pub name: Seq<char>,
    pub args: Seq<Seq<char>>,
}

/// The character views of a sequence of strings.
pub open spec fn strings_view(v: Seq<String>) -> Seq<Seq<char>> {
    v.map_values(|s: String| s@)
}

impl View for EffectCommand {
    type V = CommandView;

    closed spec fn view(&self) -> CommandView {
        CommandView { kind: self.kind, name: self.name@, args: strings_view(self.args@) }
    }
}

impl EffectCommand {
    /// The effect kind.
    pub fn kind(&self) -> (k: EffectKind)
        ensures
            k == self@.kind,
    {
        self.kind
    }

    /// The canonical effect name.
    pub fn name(&self) -> (r: &'static str)
        ensures
            r@ == self@.name,
    {
        self.name
    }

    /// The argument tokens, as given.
    pub fn args(&self) -> (r: &[String])
        ensures
            strings_view(r@) == self@.args,
    {
        self.args.as_slice()
    }

    /// Parses one command: resolves `name` and checks `args` against the
    /// effect's argument grammar.
    pub fn parse(name: &str, args: &[&str]) -> (r: Result<EffectCommand, EffectCommandParseError>)
        ensures
            match resolution(name@) {
                Resolution::Found(i) => match args_outcome(
                    spec_table(i).kind,
                    spec_table(i).canonical_name,
                    args_view(args@),
                ) {
                    None => r matches Ok(cmd) && cmd@ == (CommandView {
                        kind: spec_table(i).kind,
                        name: spec_table(i).canonical_name,
                        args: args_view(args@),
                    }),
                    Some(e) => r matches Err(x) && x@ == e,
                },
                _ => r matches Err(EffectCommandParseError::EffectName(e)) && resolves_to(
                    name@,
                    Err(e),
                ),
            },
    {
        let chars = chars_of(name);
        let descriptor = match resolve_chars(chars.as_slice()) {
            Ok(d) => d,
            Err(e) => {
                return Err(from_name_error(e));
            },
        };
        let kind = descriptor.kind();
        let canonical = descriptor.canonical_name();
        match check_command_args(kind, canonical, args) {
            Ok(()) => {},
            Err(e) => {
                return Err(e);
            },
        }
        let mut owned_args: Vec<String> = Vec::new();
        let mut k: usize = 0;
        while k < args.len()
            invariant
                0 <= k <= args@.len(),
                strings_view(owned_args@) == args_view(args@).take(k as int),
            decreases args@.len() - k,
        {
            let ghost before = owned_args@;
            owned_args.push(crate::text::owned(args[k]));
            proof {
                assert(strings_view(owned_args@) =~= strings_view(before).push(args@[k as int]@));
                assert(args_view(args@).take(k + 1) =~= args_view(args@).take(k as int).push(
                    args@[k as int]@,
                ));
            }
            k = k + 1;
        }
        proof {
            assert(args_view(args@).take(k as int) =~= args_view(args@));
        }
        Ok(EffectCommand { kind, name: canonical, args: owned_args })
    }

    /// The command as tokens: the canonical name followed by the arguments
    /// as given (the per-command renderers write the canonical forms).
    pub fn render_tokens(&self) -> (r: Vec<String>)
        ensures
            strings_view(r@) == seq![self@.name] + self@.args,
    {
        let mut r: Vec<String> = Vec::new();
        r.push(crate::text::owned(self.name));
        let mut i: usize = 0;
        while i < self.args.len()
            invariant
                0 <= i <= self.args@.len(),
                strings_view(r@) == seq![self.name@] + strings_view(self.args@).take(i as int),
            decreases self.args@.len() - i,
        {
            let ghost before = r@;
            r.push(self.args[i].clone());
            proof {
                assert(strings_view(r@) =~= strings_view(before).push(self.args@[i as int]@));
                assert(strings_view(self.args@).take(i + 1) =~= strings_view(self.args@).take(
                    i as int,
                ).push(self.args@[i as int]@));
            }
            i = i + 1;
        }
        proof {
            assert(strings_view(self.args@).take(i as int) =~= strings_view(self.args@));
        }
        r
    }
}

/// An explicit `:` boundary, placed before the command at this index.
#[derive(Debug, Clone, Copy, PartialEq, Eq)]
pub struct EffectChainBoundary {
    before_command: usize,
}

impl EffectChainBoundary {
    /// Creates a boundary before the command at `before_command`.
    pub fn new(before_command: usize) -> (r: Self)
        ensures
            r.spec_before() == before_command,
    {
        EffectChainBoundary { before_command }
    }

    /// The index of the command that follows the boundary.
    pub closed spec fn spec_before(self) -> usize {
        self.before_command
    }

    /// The index of the command that follows the boundary.
    pub fn before_command(&self) -> (r: usize)
        ensures
            r == self.spec_before(),
    {
        self.before_command
    }
}

/// A sequence of resolved commands with explicit segment boundaries.
#[derive(Debug, Clone, PartialEq, Eq)]
pub struct EffectChain {
    commands: Vec<EffectCommand>,
    boundaries: Vec<EffectChainBoundary>,
}

/// The mathematical content of an [`EffectChain`].
pub struct ChainView {
    pub commands: Seq<CommandView>,
    pub boundaries: Seq<nat>,
}

/// The views of a sequence of commands.
pub open spec fn commands_view(v: Seq<EffectCommand>) -> Seq<CommandView> {
    v.map_values(|c: EffectCommand| c@)
}

/// The positions of a sequence of boundaries.
pub open spec fn boundaries_view(v: Seq<EffectChainBoundary>) -> Seq<nat> {
    v.map_values(|b: EffectChainBoundary| b.spec_before() as nat)
}

impl View for EffectChain {
    type V = ChainView;

    closed spec fn view(&self) -> ChainView {
        ChainView {
            commands: commands_view(self.commands@),
            boundaries: boundaries_view(self.boundaries@),
        }
    }
}

/// The chain rendered back to tokens, commands from index `i` on, with `:`
/// before every command that follows a boundary.
pub open spec fn render_from(c: ChainView, i: int) -> Seq<Seq<char>>
    decreases c.commands.len() - i,
{
    if i >= c.commands.len() || i < 0 {
        Seq::empty()
    } else {
        let cmd = c.commands[i];
        let head = if c.boundaries.contains(i as nat) {
            seq![":"@]
        } else {
            Seq::empty()
        };
        head + seq![cmd.name] + cmd.args + render_from(c, i + 1)
    }
}

impl EffectChain {
    /// Builds a chain from its commands and boundaries.
    pub fn from_parts(commands: Vec<EffectCommand>, boundaries: Vec<EffectChainBoundary>) -> (r:
        Self)
        ensures
            r@.commands == commands_view(commands@),
            r@.boundaries == boundaries_view(boundaries@),
    {
        EffectChain { commands, boundaries }
    }

    /// The commands in order.
    pub fn commands(&self) -> (r: &[EffectCommand])
        ensures
            commands_view(r@) == self@.commands,
    {
        self.commands.as_slice()
    }

    /// The explicit boundaries in order.
    pub fn boundaries(&self) -> (r: &[EffectChainBoundary])
        ensures
            boundaries_view(r@) == self@.boundaries,
    {
        self.boundaries.as_slice()
    }

    /// The number of commands.
    pub fn len(&self) -> (r: usize)
        ensures
            r == self@.commands.len(),
    {
        self.commands.len()
    }

    /// Whether the chain has no commands.
    pub fn is_empty(&self) -> (r: bool)
        ensures
            r == (self@.commands.len() == 0),
    {
        self.commands.len() == 0
    }

    /// Whether the chain has explicit boundaries.
    pub fn has_boundaries(&self) -> (r: bool)
        ensures
            r == (self@.boundaries.len() > 0),
    {
        self.boundaries.len() > 0
    }

    /// The chain as flat tokens, with `:` at every boundary.
    pub fn render_tokens(&self) -> (r: Vec<String>)
        ensures
            strings_view(r@) == render_from(self@, 0),
    {
        let mut out: Vec<String> = Vec::new();
        let ghost c = self@;
        let mut k: usize = 0;
        while k < self.commands.len()
            invariant
                c == self@,
                0 <= k <= self.commands@.len(),
                strings_view(out@) + render_from(c, k as int) == render_from(c, 0),
            decreases self.commands@.len() - k,
        {
            let ghost before = out@;
            let mut is_boundary = false;
            let mut b: usize = 0;
            while b < self.boundaries.len()
                invariant
                    0 <= b <= self.boundaries@.len(),
                    is_boundary == boundaries_view(self.boundaries@).take(b as int).contains(
                        k as nat,
                    ),
                decreases self.boundaries@.len() - b,
            {
                let ghost prefix = boundaries_view(self.boundaries@).take(b as int);
                let ghost last = self.boundaries@[b as int].spec_before() as nat;
                proof {
                    assert(boundaries_view(self.boundaries@).take(b + 1) =~= prefix.push(last));
                }
                if self.boundaries[b].before_command() == k {
                    is_boundary = true;
                    proof {
                        assert(prefix.push(last)[b as int] == k as nat);
                    }
                } else {
                    proof {
                        if prefix.push(last).contains(k as nat) {
                            let j = choose|j: int| 0 <= j < prefix.push(last).len() && prefix.push(last)[j] == k as nat;
                            if j < b {
                                assert(prefix[j] == k as nat);
                            }
                        }
                    }
                }
                b = b + 1;
            }
            proof {
                assert(boundaries_view(self.boundaries@).take(b as int) =~= boundaries_view(
                    self.boundaries@,
                ));
            }
            if is_boundary {
                out.push(crate::text::owned(":"));
            }
            let tokens = self.commands[k].render_tokens();
            let mut t: usize = 0;
            let ghost mid = out@;
            while t < tokens.len()
                invariant
                    0 <= t <= tokens@.len(),
                    strings_view(out@) == strings_view(mid) + strings_view(tokens@).take(t as int),
                decreases tokens@.len() - t,
            {
                let ghost prev = out@;
                out.push(tokens[t].clone());
                proof {
                    assert(strings_view(out@) =~= strings_view(prev).push(tokens@[t as int]@));
                    assert(strings_view(tokens@).take(t + 1) =~= strings_view(tokens@).take(
                        t as int,
                    ).push(tokens@[t as int]@));
                    assert(strings_view(mid) + strings_view(tokens@).take(t + 1) =~= (strings_view(
                        mid,
                    ) + strings_view(tokens@).take(t as int)).push(tokens@[t as int]@));
                }
                t = t + 1;
            }
            proof {
                assert(strings_view(tokens@).take(t as int) =~= strings_view(tokens@));
                assert(c.commands[k as int] == self.commands@[k as int]@);
                let head = if c.boundaries.contains(k as nat) {
                    seq![":"@]
                } else {
                    Seq::<Seq<char>>::empty()
                };
                assert(strings_view(mid) =~= strings_view(before) + head);
                assert(render_from(c, k as int) == head + seq![c.commands[k as int].name]
                    + c.commands[k as int].args + render_from(c, k + 1));
                assert(strings_view(out@) + render_from(c, k + 1) =~= strings_view(before)
                    + render_from(c, k as int));
            }
            k = k + 1;
        }
        proof {
            assert(render_from(c, k as int) == Seq::<Seq<char>>::empty());
            assert(strings_view(out@) + Seq::<Seq<char>>::empty() =~= strings_view(out@));
        }
        out
    }
}

/// Whether a token ends the argument list of the command before it.
#[verifier::opaque]
pub open spec fn ends_command(v: Seq<char>) -> bool {
    v == ":"@ || v == "newfile"@ || v == "restart"@ || lookup(v) is Some || is_known_name(v)
}

/// The index just past the arguments of the command starting at `offset`:
/// the first later token that ends a command, or the end of the stream.
pub open spec fn command_end_from(values: Seq<Seq<char>>, k: int) -> int
    decreases values.len() - k,
{
    if k >= values.len() || k < 0 {
        values.len() as int
    } else if ends_command(values[k]) {
        k
    } else {
        command_end_from(values, k + 1)
    }
}

/// How parsing a token stream ends.
pub enum ChainOutcome {
    /// Every command parsed.
    Done(ChainView),
    /// The `:` at this index would create an empty segment.
    EmptyBoundary(int),
    /// The boundary control at this index is not implemented.
    UnsupportedControl(int),
    /// The token at this index does not name an implemented effect.
    BadName(int),
    /// The command spanning `start..end` has an argument error.
    BadArgs(int, int, CommandErrorView),
}

/// Parses the token stream from `offset`, having built `cmds` and `bounds`;
/// `pending` is the index of a `:` not yet followed by a command.
pub open spec fn chain_from(
    values: Seq<Seq<char>>,
    offset: int,
    cmds: Seq<CommandView>,
    bounds: Seq<nat>,
    pending: Option<int>,
) -> ChainOutcome
    decreases values.len() - offset,
{
    if offset >= values.len() || offset < 0 {
        match pending {
            Some(p) => ChainOutcome::EmptyBoundary(p),
            None => ChainOutcome::Done(ChainView { commands: cmds, boundaries: bounds }),
        }
    } else {
        let v = values[offset];
        if v == ":"@ {
            if cmds.len() == 0 || pending is Some {
                ChainOutcome::EmptyBoundary(offset)
            } else {
                chain_from(values, offset + 1, cmds, bounds.push(cmds.len()), Some(offset))
            }
        } else if v == "newfile"@ || v == "restart"@ {
            ChainOutcome::UnsupportedControl(offset)
        } else {
            match resolution(v) {
                Resolution::Found(i) => {
                    let d = spec_table(i);
                    let end = command_end_from(values, offset + 1);
                    let args = values.subrange(offset + 1, end);
                    match args_outcome(d.kind, d.canonical_name, args) {
                        Some(e) => ChainOutcome::BadArgs(offset, end, e),
                        None => if end <= offset || end > values.len() {
                            ChainOutcome::BadName(offset)
                        } else {
                            chain_from(
                                values,
                                end,
                                cmds.push(CommandView { kind: d.kind, name: d.canonical_name, args }),
                                bounds,
                                None,
                            )
                        },
                    }
                },
                _ => ChainOutcome::BadName(offset),
            }
        }
    }
}

/// How parsing the whole token stream `values` ends.
pub open spec fn chain_outcome(values: Seq<Seq<char>>) -> ChainOutcome {
    chain_from(values, 0, Seq::empty(), Seq::empty(), None)
}

/// Lemma: the command end lies after `k` (or at it) and within the stream.
pub proof fn lemma_command_end_bounds(values: Seq<Seq<char>>, k: int)
    requires
        0 <= k,
    ensures
        k <= command_end_from(values, k) <= values.len() || (k > values.len()
            && command_end_from(values, k) == values.len()),
    decreases values.len() - k,
{
    if k < values.len() && !ends_command(values[k]) {
        lemma_command_end_bounds(values, k + 1);
    }
}

/// Lemma: the token indices an outcome reports lie inside the stream.
proof fn lemma_chain_from_indices(
    values: Seq<Seq<char>>,
    offset: int,
    cmds: Seq<CommandView>,
    bounds: Seq<nat>,
    pending: Option<int>,
)
    requires
        0 <= offset,
        pending matches Some(p) ==> 0 <= p < values.len() && p < offset,
    ensures
        match chain_from(values, offset, cmds, bounds, pending) {
            ChainOutcome::Done(_) => true,
            ChainOutcome::EmptyBoundary(i) => 0 <= i < values.len(),
            ChainOutcome::UnsupportedControl(i) => 0 <= i < values.len(),
            ChainOutcome::BadName(i) => 0 <= i < values.len(),
            ChainOutcome::BadArgs(i, j, _) => 0 <= i < j <= values.len(),
        },
    decreases values.len() - offset,
{
    if offset < values.len() {
        let v = values[offset];
        if v == ":"@ {
            if !(cmds.len() == 0 || pending is Some) {
                lemma_chain_from_indices(values, offset + 1, cmds, bounds.push(cmds.len()), Some(offset));
            }
        } else if !(v == "newfile"@ || v == "restart"@) {
            match resolution(v) {
                Resolution::Found(i) => {
                    let d = spec_table(i);
                    let end = command_end_from(values, offset + 1);
                    lemma_command_end_bounds(values, offset + 1);
                    let args = values.subrange(offset + 1, end);
                    if args_outcome(d.kind, d.canonical_name, args) is None && offset < end
                        <= values.len() {
                        lemma_chain_from_indices(
                            values,
                            end,
                            cmds.push(CommandView { kind: d.kind, name: d.canonical_name, args }),
                            bounds,
                            None,
                        );
                    }
                },
                _ => {},
            }
        }
    }
}

/// Lemma: the token indices the outcome of a stream reports lie inside it.
pub proof fn lemma_chain_outcome_indices(values: Seq<Seq<char>>)
    ensures
        match chain_outcome(values) {
            ChainOutcome::Done(_) => true,
            ChainOutcome::EmptyBoundary(i) => 0 <= i < values.len(),
            ChainOutcome::UnsupportedControl(i) => 0 <= i < values.len(),
            ChainOutcome::BadName(i) => 0 <= i < values.len(),
            ChainOutcome::BadArgs(i, j, _) => 0 <= i < j <= values.len(),
        },
{
    lemma_chain_from_indices(values, 0, Seq::empty(), Seq::empty(), None);
}

/// Whether the boundaries of `c` split it into non-empty segments: they
/// are strictly increasing, and each lies strictly between the first and
/// past the last command.
pub open spec fn segments_well_formed(c: ChainView) -> bool {
    &&& forall|k: int| 0 <= k < c.boundaries.len() ==> 0 < #[trigger] c.boundaries[k] < c.commands.len()
    &&& forall|k: int, l: int|
        0 <= k < l < c.boundaries.len() ==> #[trigger] c.boundaries[k] < #[trigger] c.boundaries[l]
}

/// The boundary invariant while parsing: every boundary follows a command,
/// boundaries increase, and only a pending `:` may sit at the current end.
pub open spec fn bounds_ok(cmds: Seq<CommandView>, bounds: Seq<nat>, pending: Option<int>) -> bool {
    &&& forall|k: int| 0 <= k < bounds.len() ==> 0 < #[trigger] bounds[k] <= cmds.len()
    &&& forall|k: int, l: int|
        0 <= k < l < bounds.len() ==> #[trigger] bounds[k] < #[trigger] bounds[l]
    &&& pending is None ==> forall|k: int| 0 <= k < bounds.len() ==> #[trigger] bounds[k] < cmds.len()
    &&& pending is Some ==> bounds.len() > 0 && bounds.last() == cmds.len()
}

/// Lemma: parsing keeps the boundary invariant up to its end.
pub proof fn lemma_chain_from_segments(
    values: Seq<Seq<char>>,
    offset: int,
    cmds: Seq<CommandView>,
    bounds: Seq<nat>,
    pending: Option<int>,
)
    requires
        bounds_ok(cmds, bounds, pending),
    ensures
        chain_from(values, offset, cmds, bounds, pending) matches ChainOutcome::Done(c)
            ==> segments_well_formed(c),
    decreases values.len() - offset,
{
    if offset < values.len() && offset >= 0 {
        let v = values[offset];
        if v == ":"@ {
            if !(cmds.len() == 0 || pending is Some) {
                let nb = bounds.push(cmds.len());
                assert forall|k: int, l: int| 0 <= k < l < nb.len() implies #[trigger] nb[k]
                    < #[trigger] nb[l] by {
                    if l == nb.len() - 1 {
                        assert(nb[k] == bounds[k]);
                    }
                }
                assert forall|k: int| 0 <= k < nb.len() implies 0 < #[trigger] nb[k] <= cmds.len() by {
                    if k < bounds.len() {
                        assert(nb[k] == bounds[k]);
                    }
                }
                lemma_chain_from_segments(values, offset + 1, cmds, nb, Some(offset));
            }
        } else if !(v == "newfile"@ || v == "restart"@) {
            match resolution(v) {
                Resolution::Found(i) => {
                    let d = spec_table(i);
                    let end = command_end_from(values, offset + 1);
                    let args = values.subrange(offset + 1, end);
                    let nc = cmds.push(CommandView { kind: d.kind, name: d.canonical_name, args });
                    if args_outcome(d.kind, d.canonical_name, args) is None && offset < end
                        <= values.len() {
                        lemma_chain_from_segments(values, end, nc, bounds, None);
                    }
                },
                _ => {},
            }
        }
    }
}

/// Law: a parsed chain has no empty segment: its boundaries increase, and
/// each has a command before it and a command after it.
pub proof fn lemma_parsed_chain_segments(values: Seq<Seq<char>>)
    ensures
        chain_outcome(values) matches ChainOutcome::Done(c) ==> segments_well_formed(c),
{
    lemma_chain_from_segments(values, 0, Seq::empty(), Seq::empty(), None);
}

/// Whether the `:` at index `i` would open or close an empty segment: it
/// is the first token, directly follows another `:`, or is the last token.
pub open spec fn empty_segment_colon(values: Seq<Seq<char>>, i: int) -> bool {
    &&& 0 <= i < values.len()
    &&& values[i] == ":"@
    &&& (i == 0 || values[i - 1] == ":"@ || i == values.len() - 1)
}

/// Whether the outcome reports a failure at or before the token `i`: an
/// empty boundary at or before it, or another failure before it.
pub open spec fn fails_by(o: ChainOutcome, i: int) -> bool {
    match o {
        ChainOutcome::Done(_) => false,
        ChainOutcome::EmptyBoundary(j) => j <= i,
        ChainOutcome::UnsupportedControl(j) => j < i,
        ChainOutcome::BadName(j) => j < i,
        ChainOutcome::BadArgs(j, _, _) => j < i,
    }
}

/// Lemma: a command that starts before a `:` ends at it or earlier.
proof fn lemma_command_end_before(values: Seq<Seq<char>>, k: int, i: int)
    requires
        0 <= k <= i < values.len(),
        values[i] == ":"@,
    ensures
        command_end_from(values, k) <= i,
    decreases i - k,
{
    reveal(ends_command);
    if !ends_command(values[k]) {
        lemma_command_end_before(values, k + 1, i);
    }
}

/// Lemma: parsing from `offset` fails at or before an empty-segment `:`.
proof fn lemma_chain_from_empty_colon(
    values: Seq<Seq<char>>,
    offset: int,
    cmds: Seq<CommandView>,
    bounds: Seq<nat>,
    pending: Option<int>,
    i: int,
)
    requires
        empty_segment_colon(values, i),
        0 <= offset <= i,
        i == 0 ==> cmds.len() == 0,
        (offset == i && i > 0 && values[i - 1] == ":"@) ==> pending is Some,
    ensures
        fails_by(chain_from(values, offset, cmds, bounds, pending), i),
    decreases values.len() - offset,
{
    let v = values[offset];
    if v == ":"@ {
        if !(cmds.len() == 0 || pending is Some) {
            if offset + 1 < values.len() {
                if offset + 1 <= i {
                    lemma_chain_from_empty_colon(
                        values,
                        offset + 1,
                        cmds,
                        bounds.push(cmds.len()),
                        Some(offset),
                        i,
                    );
                }
            }
        }
    } else if !(v == "newfile"@ || v == "restart"@) {
        match resolution(v) {
            Resolution::Found(t) => {
                let d = spec_table(t);
                let end = command_end_from(values, offset + 1);
                let args = values.subrange(offset + 1, end);
                if args_outcome(d.kind, d.canonical_name, args) is None && offset < end
                    <= values.len() {
                    lemma_command_end_before(values, offset + 1, i);
                    if i > 0 && values[i - 1] == ":"@ && offset + 1 <= i - 1 {
                        lemma_command_end_before(values, offset + 1, i - 1);
                    }
                    lemma_chain_from_empty_colon(
                        values,
                        end,
                        cmds.push(CommandView { kind: d.kind, name: d.canonical_name, args }),
                        bounds,
                        None,
                        i,
                    );
                }
            },
            _ => {},
        }
    }
}

/// Law: a `:` that would leave a segment empty (the first token, one right
/// after another `:`, or the last token) makes parsing fail: with the
/// empty-boundary error at that `:`, unless a token before it failed
/// first.
pub proof fn lemma_empty_segment_rejected(values: Seq<Seq<char>>, i: int)
    requires
        empty_segment_colon(values, i),
    ensures
        !(chain_outcome(values) is Done),
        fails_by(chain_outcome(values), i),
{
    lemma_chain_from_empty_colon(values, 0, Seq::empty(), Seq::empty(), None, i);
}

/// Why a token stream failed to parse, by token index.
#[derive(Debug, Clone, PartialEq, Eq)]
pub enum ChainFailure {
    /// The `:` at this index would create an empty segment.
    EmptyBoundary { index: usize },
    /// The boundary control at this index is not implemented.
    UnsupportedControl { index: usize },
    /// The command spanning `start..end` failed to parse.
    Command { start: usize, end: usize, source: EffectCommandParseError },
}

/// `r` is the result of parsing the stream `values`.
pub open spec fn chain_result_matches(
    values: Seq<Seq<char>>,
    r: Result<EffectChain, ChainFailure>,
) -> bool {
    match chain_outcome(values) {
        ChainOutcome::Done(c) => r matches Ok(ch) && ch@ == c,
        ChainOutcome::EmptyBoundary(i) => r matches Err(ChainFailure::EmptyBoundary { index })
            && index == i,
        ChainOutcome::UnsupportedControl(i) => r matches Err(
            ChainFailure::UnsupportedControl { index },
        ) && index == i,
        ChainOutcome::BadName(i) => r matches Err(ChainFailure::Command { start, end, source })
            && start == i && end == i + 1 && (source matches EffectCommandParseError::EffectName(e)
            && resolves_to(values[i], Err(e))),
        ChainOutcome::BadArgs(i, j, ev) => r matches Err(ChainFailure::Command { start, end, source })
            && start == i && end == j && source@ == ev,
    }
}

/// Whether the token equals the literal `lit`.
fn token_is(v: &[char], lit: &str) -> (r: bool)
    ensures
        r == (v@ == lit@),
{
    let l = chars_of(lit);
    chars_eq(v, l.as_slice())
}

/// Whether a token ends the argument list of the command before it.
fn ends_command_exec(v: &[char]) -> (r: bool)
    ensures
        r == ends_command(v@),
{
    reveal(ends_command);
    if token_is(v, ":") || token_is(v, "newfile") || token_is(v, "restart") {
        return true;
    }
    match descriptor_for_name(v) {
        Some(_) => true,
        None => is_known_chars(v),
    }
}

/// The index just past the arguments of the command starting before `from`.
fn command_end(values: &[String], from: usize) -> (r: usize)
    requires
        from <= values@.len(),
    ensures
        r as int == command_end_from(strings_view(values@), from as int),
        from <= r <= values@.len(),
{
    let ghost vs = strings_view(values@);
    let mut k = from;
    while k < values.len()
        invariant
            vs == strings_view(values@),
            from <= k <= values@.len(),
            command_end_from(vs, from as int) == command_end_from(vs, k as int),
        decreases values@.len() - k,
    {
        let v = chars_of(values[k].as_str());
        if ends_command_exec(v.as_slice()) {
            return k;
        }
        k = k + 1;
    }
    k
}

/// Parses a token stream into a chain.
pub fn run_chain(values: &[String]) -> (r: Result<EffectChain, ChainFailure>)
    ensures
        chain_result_matches(strings_view(values@), r),
        r matches Err(ChainFailure::Command { start, end, .. }) ==> start < end <= values@.len(),
        r matches Err(ChainFailure::EmptyBoundary { index }) ==> index < values@.len(),
        r matches Err(ChainFailure::UnsupportedControl { index }) ==> index < values@.len(),
{
    let ghost vs = strings_view(values@);
    let mut commands: Vec<EffectCommand> = Vec::new();
    let mut boundaries: Vec<EffectChainBoundary> = Vec::new();
    let mut pending: Option<usize> = None;
    let mut offset: usize = 0;
    proof {
        assert(commands_view(commands@) =~= Seq::<CommandView>::empty());
        assert(boundaries_view(boundaries@) =~= Seq::<nat>::empty());
    }
    while offset < values.len()
        invariant
            vs == strings_view(values@),
            0 <= offset <= values@.len(),
            pending matches Some(p) ==> p < values@.len(),
            chain_outcome(vs) == chain_from(
                vs,
                offset as int,
                commands_view(commands@),
                boundaries_view(boundaries@),
                match pending {
                    Some(p) => Some(p as int),
                    None => None,
                },
            ),
        decreases values@.len() - offset,
    {
        let start = chars_of(values[offset].as_str());
        assert(start@ == vs[offset as int]);
        if token_is(start.as_slice(), ":") {
            if commands.len() == 0 || pending.is_some() {
                return Err(ChainFailure::EmptyBoundary { index: offset });
            }
            let ghost before = boundaries@;
            boundaries.push(EffectChainBoundary::new(commands.len()));
            proof {
                assert(boundaries_view(boundaries@) =~= boundaries_view(before).push(
                    commands@.len() as nat,
                ));
            }
            pending = Some(offset);
            offset = offset + 1;
            continue;
        }
        if token_is(start.as_slice(), "newfile") || token_is(start.as_slice(), "restart") {
            return Err(ChainFailure::UnsupportedControl { index: offset });
        }
        let descriptor = match resolve_chars(start.as_slice()) {
            Ok(d) => d,
            Err(e) => {
                return Err(
                    ChainFailure::Command {
                        start: offset,
                        end: offset + 1,
                        source: from_name_error(e),
                    },
                );
            },
        };
        let end = command_end(values, offset + 1);
        let mut args: Vec<&str> = Vec::new();
        let mut k = offset + 1;
        while k < end
            invariant
                vs == strings_view(values@),
                offset + 1 <= k <= end <= values@.len(),
                args_view(args@) == vs.subrange(offset + 1, k as int),
            decreases end - k,
        {
            let ghost before = args@;
            args.push(values[k].as_str());
            proof {
                assert(args_view(args@) =~= args_view(before).push(values@[k as int]@));
                assert(vs.subrange(offset + 1, k + 1) =~= vs.subrange(offset + 1, k as int).push(
                    vs[k as int],
                ));
            }
            k = k + 1;
        }
        let kind = descriptor.kind();
        let name = descriptor.canonical_name();
        match check_command_args(kind, name, args.as_slice()) {
            Ok(()) => {},
            Err(e) => {
                return Err(ChainFailure::Command { start: offset, end, source: e });
            },
        }
        let mut owned_args: Vec<String> = Vec::new();
        let mut k = offset + 1;
        while k < end
            invariant
                vs == strings_view(values@),
                offset + 1 <= k <= end <= values@.len(),
                strings_view(owned_args@) == vs.subrange(offset + 1, k as int),
            decreases end - k,
        {
            let ghost before = owned_args@;
            owned_args.push(values[k].clone());
            proof {
                assert(strings_view(owned_args@) =~= strings_view(before).push(values@[k as int]@));
                assert(vs.subrange(offset + 1, k + 1) =~= vs.subrange(offset + 1, k as int).push(
                    vs[k as int],
                ));
            }
            k = k + 1;
        }
        let ghost before = commands@;
        let command = EffectCommand { kind, name, args: owned_args };
        commands.push(command);
        proof {
            assert(commands_view(commands@) =~= commands_view(before).push(command@));
        }
        pending = None;
        offset = end;
    }
    match pending {
        Some(p) => Err(ChainFailure::EmptyBoundary { index: p }),
        None => Ok(EffectChain::from_parts(commands, boundaries)),
    }
}

/// Errors produced while parsing a flat command-line effect chain.
#[derive(Debug, Clone, PartialEq, Eq)]
#[non_exhaustive]
pub enum EffectChainParseError {
    /// The command starting at token `index` failed to parse.
    CommandParseFailed {
        /// Zero-based index of the command's first token.
        index: usize,
        /// Raw command tokens, joined by spaces.
        command: String,
        /// The command parser's error.
        source: EffectCommandParseError,
    },
    /// The `:` at token `index` would create an empty segment.
    EmptyBoundaryChain {
        /// Zero-based token index.
        index: usize,
    },
    /// The boundary control at token `index` is not implemented.
    UnsupportedBoundaryControl {
        /// Zero-based token index.
        index: usize,
        /// The control token.
        control: String,
    },
}

/// Tokens joined by single spaces.
pub open spec fn join_spaced(tokens: Seq<Seq<char>>) -> Seq<char>
    decreases tokens.len(),
{
    if tokens.len() == 0 {
        Seq::empty()
    } else if tokens.len() == 1 {
        tokens[0]
    } else {
        join_spaced(tokens.drop_last()) + " "@ + tokens.last()
    }
}

/// Joins `values[from..to]` with single spaces.
pub fn join_tokens(values: &[String], from: usize, to: usize) -> (r: String)
    requires
        from <= to <= values@.len(),
    ensures
        r@ == join_spaced(strings_view(values@).subrange(from as int, to as int)),
{
    let ghost vs = strings_view(values@);
    let mut s = String::new();
    let mut k = from;
    while k < to
        invariant
            vs == strings_view(values@),
            from <= k <= to <= values@.len(),
            s@ == join_spaced(vs.subrange(from as int, k as int)),
        decreases to - k,
    {
        let ghost prev = vs.subrange(from as int, k as int);
        let ghost next = vs.subrange(from as int, k + 1);
        proof {
            assert(next.drop_last() =~= prev);
            assert(next.last() == vs[k as int]);
        }
        if k > from {
            crate::text::push_str_chars(&mut s, " ");
        }
        crate::text::push_str_chars(&mut s, values[k].as_str());
        proof {
            if k == from {
                assert(prev.len() == 0);
                assert(s@ =~= join_spaced(next));
            } else {
                assert(s@ =~= join_spaced(next));
            }
        }
        k = k + 1;
    }
    s
}

/// `r` is the result of parsing the flat command-line token stream `values`.
pub open spec fn cli_result_matches(
    values: Seq<Seq<char>>,
    r: Result<EffectChain, EffectChainParseError>,
) -> bool {
    match chain_outcome(values) {
        ChainOutcome::Done(c) => r matches Ok(ch) && ch@ == c,
        ChainOutcome::EmptyBoundary(i) => r matches Err(
            EffectChainParseError::EmptyBoundaryChain { index },
        ) && index == i,
        ChainOutcome::UnsupportedControl(i) => r matches Err(
            EffectChainParseError::UnsupportedBoundaryControl { index, control },
        ) && index == i && control@ == values[i],
        ChainOutcome::BadName(i) => r matches Err(
            EffectChainParseError::CommandParseFailed { index, command, source },
        ) && index == i && command@ == values[i] && (source matches EffectCommandParseError::EffectName(
            e,
        ) && resolves_to(values[i], Err(e))),
        ChainOutcome::BadArgs(i, j, ev) => r matches Err(
            EffectChainParseError::CommandParseFailed { index, command, source },
        ) && index == i && command@ == join_spaced(values.subrange(i, j)) && source@ == ev,
    }
}

/// Parses flat command-line effect tokens into a chain.
///
/// Commands are separated by the command-boundary rules of this module, and
/// `:` preserves an explicit segment boundary.
pub fn parse_effect_chain(args: &[&str]) -> (r: Result<EffectChain, EffectChainParseError>)
    ensures
        cli_result_matches(args_view(args@), r),
{
    let mut values: Vec<String> = Vec::new();
    let mut k: usize = 0;
    while k < args.len()
        invariant
            0 <= k <= args@.len(),
            strings_view(values@) == args_view(args@).take(k as int),
        decreases args@.len() - k,
    {
        let ghost before = values@;
        values.push(crate::text::owned(args[k]));
        proof {
            assert(strings_view(values@) =~= strings_view(before).push(args@[k as int]@));
            assert(args_view(args@).take(k + 1) =~= args_view(args@).take(k as int).push(
                args@[k as int]@,
            ));
        }
        k = k + 1;
    }
    proof {
        assert(args_view(args@).take(k as int) =~= args_view(args@));
        assert(strings_view(values@) == args_view(args@));
    }
    match run_chain(values.as_slice()) {
        Ok(chain) => Ok(chain),
        Err(ChainFailure::EmptyBoundary { index }) => Err(
            EffectChainParseError::EmptyBoundaryChain { index },
        ),
        Err(ChainFailure::UnsupportedControl { index }) => {
            proof {
                assert(strings_view(values@)[index as int] == values@[index as int]@);
                assert(args_view(args@)[index as int] == args@[index as int]@);
            }
            Err(
                EffectChainParseError::UnsupportedBoundaryControl {
                    index,
                    control: values[index].clone(),
                },
            )
        },
        Err(ChainFailure::Command { start, end, source }) => {
            let command = join_tokens(values.as_slice(), start, end);
            proof {
                if end == start + 1 {
                    let one = strings_view(values@).subrange(start as int, end as int);
                    assert(one =~= seq![values@[start as int]@]);
                    assert(join_spaced(one) == one[0]);
                    assert(args_view(args@)[start as int] == args@[start as int]@);
                    assert(command@ == args@[start as int]@);
                }
            }
            Err(EffectChainParseError::CommandParseFailed { index: start, command, source })
        },
    }
}

} // verus!
