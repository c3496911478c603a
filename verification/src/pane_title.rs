//! Custom pane-title formats (`[ui] pane_title_format`).
//!
//! A starship-style subset: literal text, `$var` / `${var}` variables, and
//! conditional groups `( … )` that drop entirely when every variable inside
//! them resolves empty. The format is parsed once into a typed [`Segment`]
//! tree and later rendered by the pure [`expand`] against per-pane
//! [`TitleFacts`].
//!
//! The grammar is stated as a character-at-a-time machine over a stack of
//! open groups ([`parse_from`]); rendering is stated structurally
//! ([`expand_model`]).

use vstd::prelude::*;

use crate::text::{chars_of, push_char};

verus! {

/// A resolvable field of a pane's title.
///
/// Each variant maps to one `$name` in the format and to one resolved string
/// in [`TitleFacts`]. An empty resolved string means "not applicable" and
/// drives conditional-group elision.
#[derive(Debug, Clone, Copy, PartialEq, Eq, Structural)]
pub enum TitleField {
    /// Basename of the pane cwd (`$HOME` shown as `~`).
    Dir,
    /// Full pane cwd, with `$HOME` abbreviated to `~`.
    Cwd,
    /// Foreground process name running in the pane.
    Process,
    /// Detected/reported agent label.
    Agent,
    /// Git branch for the pane's repository.
    Branch,
    /// Ahead/behind marker relative to upstream.
    AheadBehind,
    /// Working-tree status marks (e.g. dirty/staged).
    GitStatus,
    /// Zoom indicator marker, shown only on the zoomed pane.
    Zoom,
    /// Manual pane label set by the user.
    Label,
}

/// The field a `$name` (without the `$`) refers to, if any.
pub open spec fn field_for_name(name: Seq<char>) -> Option<TitleField> {
    if name == "dir"@ {
        Some(TitleField::Dir)
    } else if name == "cwd"@ {
        Some(TitleField::Cwd)
    } else if name == "process"@ {
        Some(TitleField::Process)
    } else if name == "agent"@ {
        Some(TitleField::Agent)
    } else if name == "branch"@ {
        Some(TitleField::Branch)
    } else if name == "ahead_behind"@ {
        Some(TitleField::AheadBehind)
    } else if name == "git_status"@ {
        Some(TitleField::GitStatus)
    } else if name == "zoom"@ {
        Some(TitleField::Zoom)
    } else if name == "label"@ {
        Some(TitleField::Label)
    } else {
        None
    }
}

fn name_is(name: &String, known: &str) -> (r: bool)
    ensures
        r == (name@ == known@),
{
    *name == known.to_owned()
}

impl TitleField {
    /// Resolve a `$name` (without the `$`) to its field.
    fn from_name(name: &String) -> (field: Option<TitleField>)
        ensures
            field == field_for_name(name@),
    {
        if name_is(name, "dir") {
            Some(TitleField::Dir)
        } else if name_is(name, "cwd") {
            Some(TitleField::Cwd)
        } else if name_is(name, "process") {
            Some(TitleField::Process)
        } else if name_is(name, "agent") {
            Some(TitleField::Agent)
        } else if name_is(name, "branch") {
            Some(TitleField::Branch)
        } else if name_is(name, "ahead_behind") {
            Some(TitleField::AheadBehind)
        } else if name_is(name, "git_status") {
            Some(TitleField::GitStatus)
        } else if name_is(name, "zoom") {
            Some(TitleField::Zoom)
        } else if name_is(name, "label") {
            Some(TitleField::Label)
        } else {
            None
        }
    }
}

/// One node of a parsed pane-title format.
#[derive(Debug, PartialEq, Eq)]
pub enum Segment {
    /// Verbatim text (escapes already resolved).
    Literal(String),
    /// A `$var` reference.
    Var(TitleField),
    /// A conditional group `( … )`. Renders nothing when every variable
    /// reachable inside resolves to an empty string.
    Group(Vec<Segment>),
}

/// The mathematical value of a [`Segment`].
pub enum SegmentModel {
    Literal(Seq<char>),
    Var(TitleField),
    Group(Seq<SegmentModel>),
}

/// The model of one segment.
pub open spec fn segment_model(s: Segment) -> SegmentModel
    decreases s,
{
    match s {
        Segment::Literal(text) => SegmentModel::Literal(text@),
        Segment::Var(field) => SegmentModel::Var(field),
        Segment::Group(inner) => SegmentModel::Group(segments_model(inner@)),
    }
}

/// The model of a sequence of segments, element by element.
pub open spec fn segments_model(q: Seq<Segment>) -> Seq<SegmentModel>
    decreases q,
{
    if q.len() == 0 {
        Seq::empty()
    } else {
        segments_model(q.subrange(0, q.len() - 1)).push(segment_model(q[q.len() - 1]))
    }
}

/// Resolved per-pane values for every [`TitleField`].
///
/// Each field holds its already-formatted display string; an empty string
/// means the field does not apply to this pane.
#[derive(Debug, Clone, Default, PartialEq, Eq)]
pub struct TitleFacts {
    pub dir: String,
    pub cwd: String,
    pub process: String,
    pub agent: String,
    pub branch: String,
    pub ahead_behind: String,
    pub git_status: String,
    pub zoom: String,
    pub label: String,
}

/// The resolved text of `field` in `facts`.
pub open spec fn fact_text(facts: TitleFacts, field: TitleField) -> Seq<char> {
    match field {
        TitleField::Dir => facts.dir@,
        TitleField::Cwd => facts.cwd@,
        TitleField::Process => facts.process@,
        TitleField::Agent => facts.agent@,
        TitleField::Branch => facts.branch@,
        TitleField::AheadBehind => facts.ahead_behind@,
        TitleField::GitStatus => facts.git_status@,
        TitleField::Zoom => facts.zoom@,
        TitleField::Label => facts.label@,
    }
}

impl TitleFacts {
    /// The resolved string for `field`.
    pub fn field(&self, field: TitleField) -> (text: &str)
        ensures
            text@ == fact_text(*self, field),
    {
        match field {
            TitleField::Dir => self.dir.as_str(),
            TitleField::Cwd => self.cwd.as_str(),
            TitleField::Process => self.process.as_str(),
            TitleField::Agent => self.agent.as_str(),
            TitleField::Branch => self.branch.as_str(),
            TitleField::AheadBehind => self.ahead_behind.as_str(),
            TitleField::GitStatus => self.git_status.as_str(),
            TitleField::Zoom => self.zoom.as_str(),
            TitleField::Label => self.label.as_str(),
        }
    }
}

/// Whether `seg` references `field`, looking inside groups.
pub open spec fn segment_mentions(seg: SegmentModel, field: TitleField) -> bool
    decreases seg,
{
    match seg {
        SegmentModel::Literal(_) => false,
        SegmentModel::Var(var) => var == field,
        SegmentModel::Group(inner) => mentions(inner, field),
    }
}

/// Whether any segment of `segs` references `field`, looking inside groups.
pub open spec fn mentions(segs: Seq<SegmentModel>, field: TitleField) -> bool
    decreases segs,
{
    if segs.len() == 0 {
        false
    } else {
        mentions(segs.subrange(0, segs.len() - 1), field) || segment_mentions(
            segs[segs.len() - 1],
            field,
        )
    }
}

/// Whether `seg` holds a variable (possibly nested) that resolves non-empty.
pub open spec fn segment_has_value(seg: SegmentModel, facts: TitleFacts) -> bool
    decreases seg,
{
    match seg {
        SegmentModel::Literal(_) => false,
        SegmentModel::Var(field) => fact_text(facts, field).len() > 0,
        SegmentModel::Group(inner) => has_value(inner, facts),
    }
}

/// Whether any variable reachable in `segs` resolves non-empty.
pub open spec fn has_value(segs: Seq<SegmentModel>, facts: TitleFacts) -> bool
    decreases segs,
{
    if segs.len() == 0 {
        false
    } else {
        has_value(segs.subrange(0, segs.len() - 1), facts) || segment_has_value(
            segs[segs.len() - 1],
            facts,
        )
    }
}

/// The rendering of one segment: literals verbatim, variables by their
/// resolved text, groups only when some variable inside has a value.
pub open spec fn expand_segment(seg: SegmentModel, facts: TitleFacts) -> Seq<char>
    decreases seg,
{
    match seg {
        SegmentModel::Literal(text) => text,
        SegmentModel::Var(field) => fact_text(facts, field),
        SegmentModel::Group(inner) => if has_value(inner, facts) {
            expand_model(inner, facts)
        } else {
            Seq::empty()
        },
    }
}

/// The rendering of a segment sequence: the renderings of its segments, in
/// order.
pub open spec fn expand_model(segs: Seq<SegmentModel>, facts: TitleFacts) -> Seq<char>
    decreases segs,
{
    if segs.len() == 0 {
        Seq::empty()
    } else {
        expand_model(segs.subrange(0, segs.len() - 1), facts) + expand_segment(
            segs[segs.len() - 1],
            facts,
        )
    }
}

proof fn lemma_segments_model_push(q: Seq<Segment>, s: Segment)
    ensures
        segments_model(q.push(s)) == segments_model(q).push(segment_model(s)),
{
    assert(q.push(s).subrange(0, q.len() as int) =~= q);
}

proof fn lemma_segments_model_prefix(q: Seq<Segment>, i: int)
    requires
        0 <= i < q.len(),
    ensures
        segments_model(q.subrange(0, i + 1)) == segments_model(q.subrange(0, i)).push(
            segment_model(q[i]),
        ),
{
    assert(q.subrange(0, i + 1).subrange(0, i) =~= q.subrange(0, i));
}

/// Whether `segments` reference `field` anywhere, including inside groups.
///
/// Lets consumers such as the git refresh demand ask which facts a format
/// actually needs without expanding it.
pub fn references(segments: &[Segment], field: TitleField) -> (found: bool)
    ensures
        found == mentions(segments_model(segments@), field),
    decreases segments@,
{
    let n = segments.len();
    let mut i: usize = 0;
    while i < n
        invariant
            n == segments@.len(),
            i <= n,
            !mentions(segments_model(segments@.subrange(0, i as int)), field),
        decreases n - i,
    {
        proof {
            lemma_segments_model_prefix(segments@, i as int);
        }
        let hit = match &segments[i] {
            Segment::Literal(_) => false,
            Segment::Var(var) => *var == field,
            Segment::Group(inner) => {
                assert(decreases_to!(segments@ => inner@));
                references(inner.as_slice(), field)
            },
        };
        let ghost prefix = segments_model(segments@.subrange(0, i as int));
        let ghost grown = prefix.push(segment_model(segments@[i as int]));
        assert(hit == segment_mentions(segment_model(segments@[i as int]), field));
        proof {
            lemma_mentions_push(prefix, segment_model(segments@[i as int]), field);
        }
        assert(grown.subrange(0, grown.len() - 1) =~= prefix);
        if hit {
            assert(segments@.subrange(0, n as int) =~= segments@);
            proof {
                lemma_mentions_prefix(segments@, i as int, n as int, field);
            }
            return true;
        }
        i = i + 1;
    }
    assert(segments@.subrange(0, n as int) =~= segments@);
    false
}

proof fn lemma_mentions_push(segs: Seq<SegmentModel>, seg: SegmentModel, field: TitleField)
    ensures
        mentions(segs.push(seg), field) == (mentions(segs, field) || segment_mentions(seg, field)),
{
    let grown = segs.push(seg);
    assert(grown.subrange(0, grown.len() - 1) =~= segs);
    assert(grown[grown.len() - 1] == seg);
}

proof fn lemma_mentions_prefix(q: Seq<Segment>, i: int, n: int, field: TitleField)
    requires
        0 <= i < n,
        n == q.len(),
        mentions(segments_model(q.subrange(0, i + 1)), field),
    ensures
        mentions(segments_model(q), field),
    decreases n - i,
{
    if i + 1 == n {
        assert(q.subrange(0, n) =~= q);
    } else {
        lemma_segments_model_prefix(q, i + 1);
        let m = segments_model(q.subrange(0, i + 2));
        assert(m.subrange(0, m.len() - 1) =~= segments_model(q.subrange(0, i + 1)));
        lemma_mentions_prefix(q, i + 1, n, field);
    }
}


proof fn lemma_has_value_push(segs: Seq<SegmentModel>, seg: SegmentModel, facts: TitleFacts)
    ensures
        has_value(segs.push(seg), facts) == (has_value(segs, facts) || segment_has_value(
            seg,
            facts,
        )),
{
    let grown = segs.push(seg);
    assert(grown.subrange(0, grown.len() - 1) =~= segs);
    assert(grown[grown.len() - 1] == seg);
}

proof fn lemma_expand_push(segs: Seq<SegmentModel>, seg: SegmentModel, facts: TitleFacts)
    ensures
        expand_model(segs.push(seg), facts) == expand_model(segs, facts) + expand_segment(
            seg,
            facts,
        ),
{
    let grown = segs.push(seg);
    assert(grown.subrange(0, grown.len() - 1) =~= segs);
    assert(grown[grown.len() - 1] == seg);
}

proof fn lemma_has_value_prefix(q: Seq<Segment>, i: int, n: int, facts: TitleFacts)
    requires
        0 <= i < n,
        n == q.len(),
        has_value(segments_model(q.subrange(0, i + 1)), facts),
    ensures
        has_value(segments_model(q), facts),
    decreases n - i,
{
    if i + 1 == n {
        assert(q.subrange(0, n) =~= q);
    } else {
        lemma_segments_model_prefix(q, i + 1);
        lemma_has_value_push(
            segments_model(q.subrange(0, i + 1)),
            segment_model(q[i + 1]),
            facts,
        );
        lemma_has_value_prefix(q, i + 1, n, facts);
    }
}

/// Whether a group should render: true when at least one variable inside it
/// (including nested groups) resolves non-empty. A group with no variables at
/// all never renders.
fn group_has_value(segments: &[Segment], facts: &TitleFacts) -> (found: bool)
    ensures
        found == has_value(segments_model(segments@), *facts),
    decreases segments@,
{
    let n = segments.len();
    let mut i: usize = 0;
    while i < n
        invariant
            n == segments@.len(),
            i <= n,
            !has_value(segments_model(segments@.subrange(0, i as int)), *facts),
        decreases n - i,
    {
        proof {
            lemma_segments_model_prefix(segments@, i as int);
            lemma_has_value_push(
                segments_model(segments@.subrange(0, i as int)),
                segment_model(segments@[i as int]),
                *facts,
            );
        }
        let hit = match &segments[i] {
            Segment::Literal(_) => false,
            Segment::Var(field) => !facts.field(*field).is_empty(),
            Segment::Group(inner) => {
                assert(decreases_to!(segments@ => inner@));
                group_has_value(inner.as_slice(), facts)
            },
        };
        if hit {
            proof {
                lemma_has_value_prefix(segments@, i as int, n as int, *facts);
            }
            return true;
        }
        i = i + 1;
    }
    assert(segments@.subrange(0, n as int) =~= segments@);
    false
}

/// Render parsed `segments` against `facts`.
///
/// Pure. A [`Segment::Group`] contributes nothing when every [`Segment::Var`]
/// reachable inside it (through nested groups) resolves to an empty string;
/// otherwise the group's literals and non-empty variables render in place.
pub fn expand(segments: &[Segment], facts: &TitleFacts) -> (out: String)
    ensures
        out@ == expand_model(segments_model(segments@), *facts),
{
    let mut out = String::new();
    expand_into(segments, facts, &mut out);
    assert(out@ =~= expand_model(segments_model(segments@), *facts));
    out
}

fn expand_into(segments: &[Segment], facts: &TitleFacts, out: &mut String)
    ensures
        final(out)@ == old(out)@ + expand_model(segments_model(segments@), *facts),
    decreases segments@,
{
    let ghost start = out@;
    let n = segments.len();
    let mut i: usize = 0;
    while i < n
        invariant
            n == segments@.len(),
            i <= n,
            out@ == start + expand_model(segments_model(segments@.subrange(0, i as int)), *facts),
        decreases n - i,
    {
        proof {
            lemma_segments_model_prefix(segments@, i as int);
            lemma_expand_push(
                segments_model(segments@.subrange(0, i as int)),
                segment_model(segments@[i as int]),
                *facts,
            );
        }
        let ghost before = out@;
        match &segments[i] {
            Segment::Literal(text) => out.append(text.as_str()),
            Segment::Var(field) => out.append(facts.field(*field)),
            Segment::Group(inner) => {
                assert(decreases_to!(segments@ => inner@));
                if group_has_value(inner.as_slice(), facts) {
                    expand_into(inner.as_slice(), facts, out);
                }
            },
        }
        assert(out@ =~= before + expand_segment(segment_model(segments@[i as int]), *facts));
        i = i + 1;
    }
    assert(segments@.subrange(0, n as int) =~= segments@);
}


/// Why a pane-title format failed to parse.
#[derive(Debug, Clone, PartialEq, Eq)]
pub enum ParseErrorKind {
    /// `\c` for a `c` other than `$ ( ) \`.
    InvalidEscape(char),
    /// A `\` at the very end of the format.
    TrailingBackslash,
    /// A `)` with no open group.
    UnmatchedClose,
    /// A `(` never closed before the end of the format.
    UnmatchedOpen,
    /// A `${` never closed by `}`.
    UnterminatedBrace,
    /// A `$` (or `${}`) with no name.
    EmptyVariableName,
    /// A `$name` that names no [`TitleField`].
    UnknownVariable(String),
}

/// The mathematical value of a [`ParseErrorKind`].
pub enum TitleParseError {
    InvalidEscape(char),
    TrailingBackslash,
    UnmatchedClose,
    UnmatchedOpen,
    UnterminatedBrace,
    EmptyVariableName,
    UnknownVariable(Seq<char>),
}

impl View for ParseErrorKind {
    type V = TitleParseError;

    open spec fn view(&self) -> TitleParseError {
        match self {
            ParseErrorKind::InvalidEscape(c) => TitleParseError::InvalidEscape(*c),
            ParseErrorKind::TrailingBackslash => TitleParseError::TrailingBackslash,
            ParseErrorKind::UnmatchedClose => TitleParseError::UnmatchedClose,
            ParseErrorKind::UnmatchedOpen => TitleParseError::UnmatchedOpen,
            ParseErrorKind::UnterminatedBrace => TitleParseError::UnterminatedBrace,
            ParseErrorKind::EmptyVariableName => TitleParseError::EmptyVariableName,
            ParseErrorKind::UnknownVariable(name) => TitleParseError::UnknownVariable(name@),
        }
    }
}

/// The human-readable message for each parse failure.
pub open spec fn error_message(e: TitleParseError) -> Seq<char> {
    match e {
        TitleParseError::InvalidEscape(c) => "invalid escape '\\"@.push(c)
            + "'; only \\$ \\( \\) \\\\ are supported"@,
        TitleParseError::TrailingBackslash => "trailing '\\' with nothing to escape"@,
        TitleParseError::UnmatchedClose => "unmatched ')' in pane title format"@,
        TitleParseError::UnmatchedOpen => "unmatched '(' in pane title format"@,
        TitleParseError::UnterminatedBrace => "unterminated '${' in pane title format"@,
        TitleParseError::EmptyVariableName => "empty variable name after '$'"@,
        TitleParseError::UnknownVariable(name) => "unknown pane title variable '$"@ + name
            + "'"@,
    }
}

/// A pane-title format that failed to parse.
#[derive(Debug, PartialEq, Eq)]
pub struct ParseError {
    kind: ParseErrorKind,
    message: String,
}

impl View for ParseError {
    type V = TitleParseError;

    closed spec fn view(&self) -> TitleParseError {
        self.kind@
    }
}

impl ParseError {
    fn new(kind: ParseErrorKind) -> (err: ParseError)
        ensures
            err@ == kind@,
    {
        let message = match &kind {
            ParseErrorKind::InvalidEscape(c) => {
                let mut m = "invalid escape '\\".to_owned();
                push_char(&mut m, *c);
                m.append("'; only \\$ \\( \\) \\\\ are supported");
                m
            },
            ParseErrorKind::TrailingBackslash => "trailing '\\' with nothing to escape".to_owned(),
            ParseErrorKind::UnmatchedClose => "unmatched ')' in pane title format".to_owned(),
            ParseErrorKind::UnmatchedOpen => "unmatched '(' in pane title format".to_owned(),
            ParseErrorKind::UnterminatedBrace => "unterminated '${' in pane title format".to_owned(),
            ParseErrorKind::EmptyVariableName => "empty variable name after '$'".to_owned(),
            ParseErrorKind::UnknownVariable(name) => {
                let mut m = "unknown pane title variable '$".to_owned();
                m.append(name.as_str());
                m.append("'");
                m
            },
        };
        ParseError { kind, message }
    }

    /// Why the format failed to parse.
    pub fn kind(&self) -> (kind: &ParseErrorKind)
        ensures
            kind@ == self@,
    {
        &self.kind
    }

    /// The human-readable description of the failure.
    pub fn message(&self) -> (message: &str)
        ensures
            message@ == error_message(self@),
    {
        proof {
            use_type_invariant(self);
        }
        self.message.as_str()
    }

    #[verifier::type_invariant]
    spec fn message_matches_kind(self) -> bool {
        self.message@ == error_message(self.kind@)
    }
}

/// One level of the parser's stack of open groups: the segments completed
/// so far at this level and the literal text not yet flushed.
pub struct ParseFrame {
    pub segs: Seq<SegmentModel>,
    pub lit: Seq<char>,
}

/// The segments of a frame with its pending literal (if any) appended.
pub open spec fn flushed(f: ParseFrame) -> Seq<SegmentModel> {
    if f.lit.len() == 0 {
        f.segs
    } else {
        f.segs.push(SegmentModel::Literal(f.lit))
    }
}

pub open spec fn empty_frame() -> ParseFrame {
    ParseFrame { segs: Seq::empty(), lit: Seq::empty() }
}

/// The stack with `c` appended to the innermost pending literal.
pub open spec fn with_char(stack: Seq<ParseFrame>, c: char) -> Seq<ParseFrame> {
    let top = stack.last();
    stack.update(stack.len() - 1, ParseFrame { segs: top.segs, lit: top.lit.push(c) })
}

/// The stack with the innermost literal flushed and `seg` appended after it.
pub open spec fn with_segment(stack: Seq<ParseFrame>, seg: SegmentModel) -> Seq<ParseFrame> {
    stack.update(
        stack.len() - 1,
        ParseFrame { segs: flushed(stack.last()).push(seg), lit: Seq::empty() },
    )
}

/// The stack after `(`: the innermost literal flushed and a new empty level.
pub open spec fn opened(stack: Seq<ParseFrame>) -> Seq<ParseFrame> {
    stack.update(stack.len() - 1, ParseFrame { segs: flushed(stack.last()), lit: Seq::empty() }).push(
        empty_frame(),
    )
}

/// The stack after `)`: the innermost level closed into a group of its
/// parent.
pub open spec fn closed(stack: Seq<ParseFrame>) -> Seq<ParseFrame> {
    with_segment(stack.drop_last(), SegmentModel::Group(flushed(stack.last())))
}

/// The four characters that `\` escapes.
pub open spec fn is_escapable(c: char) -> bool {
    c == '$' || c == '(' || c == ')' || c == '\\'
}

/// Characters of an unbraced `$name`: ASCII letters, digits and `_`.
pub open spec fn is_name_char(c: char) -> bool {
    ('a' <= c && c <= 'z') || ('A' <= c && c <= 'Z') || ('0' <= c && c <= '9') || c == '_'
}

/// The end of the maximal run of name characters starting at `k`.
pub open spec fn plain_name_end(s: Seq<char>, k: int) -> int
    decreases s.len() - k,
{
    if 0 <= k < s.len() && is_name_char(s[k]) {
        plain_name_end(s, k + 1)
    } else {
        k
    }
}

/// The index of the first `}` at or after `k`, or `s.len()` if there is none.
pub open spec fn brace_close(s: Seq<char>, k: int) -> int
    decreases s.len() - k,
{
    if k < s.len() {
        if s[k] == '}' {
            k
        } else {
            brace_close(s, k + 1)
        }
    } else {
        s.len() as int
    }
}

/// The variable whose name starts at `k` (just after a `$`), with the index
/// just past it; `${name}` or the longest `$name` run of name characters.
pub open spec fn variable_at(s: Seq<char>, k: int) -> Result<(TitleField, int), TitleParseError> {
    if 0 <= k < s.len() && s[k] == '{' {
        let e = brace_close(s, k + 1);
        if e >= s.len() {
            Err(TitleParseError::UnterminatedBrace)
        } else if e == k + 1 {
            Err(TitleParseError::EmptyVariableName)
        } else {
            let name = s.subrange(k + 1, e);
            match field_for_name(name) {
                Some(f) => Ok((f, e + 1)),
                None => Err(TitleParseError::UnknownVariable(name)),
            }
        }
    } else {
        let e = plain_name_end(s, k);
        if e == k {
            Err(TitleParseError::EmptyVariableName)
        } else {
            let name = s.subrange(k, e);
            match field_for_name(name) {
                Some(f) => Ok((f, e)),
                None => Err(TitleParseError::UnknownVariable(name)),
            }
        }
    }
}

pub proof fn lemma_plain_name_end(s: Seq<char>, k: int)
    requires
        0 <= k <= s.len(),
    ensures
        k <= plain_name_end(s, k) <= s.len(),
        forall|j: int| k <= j < plain_name_end(s, k) ==> is_name_char(#[trigger] s[j]),
        plain_name_end(s, k) < s.len() ==> !is_name_char(s[plain_name_end(s, k)]),
    decreases s.len() - k,
{
    if k < s.len() && is_name_char(s[k]) {
        lemma_plain_name_end(s, k + 1);
    }
}

pub proof fn lemma_brace_close(s: Seq<char>, k: int)
    requires
        0 <= k <= s.len(),
    ensures
        k <= brace_close(s, k) <= s.len(),
        forall|j: int| k <= j < brace_close(s, k) ==> #[trigger] s[j] != '}',
        brace_close(s, k) < s.len() ==> s[brace_close(s, k)] == '}',
    decreases s.len() - k,
{
    if k < s.len() && s[k] != '}' {
        lemma_brace_close(s, k + 1);
    }
}

pub proof fn lemma_variable_advances(s: Seq<char>, k: int)
    requires
        0 <= k <= s.len(),
    ensures
        variable_at(s, k) matches Ok((_, j)) ==> k < j <= s.len(),
{
    if k < s.len() && s[k] == '{' {
        lemma_brace_close(s, k + 1);
    } else {
        lemma_plain_name_end(s, k);
    }
}

/// The parse of `s` from index `i` with the given stack of open levels:
/// escapes add their character to the pending literal, `$` adds a variable,
/// `(` opens a level, `)` closes one into a group, anything else is literal.
pub open spec fn parse_from(s: Seq<char>, i: int, stack: Seq<ParseFrame>) -> Result<
    Seq<SegmentModel>,
    TitleParseError,
>
    decreases s.len() - i,
{
    if i < 0 || i >= s.len() {
        if stack.len() > 1 {
            Err(TitleParseError::UnmatchedOpen)
        } else {
            Ok(flushed(stack.last()))
        }
    } else {
        let c = s[i];
        if c == '\\' {
            if i + 1 >= s.len() {
                Err(TitleParseError::TrailingBackslash)
            } else if is_escapable(s[i + 1]) {
                parse_from(s, i + 2, with_char(stack, s[i + 1]))
            } else {
                Err(TitleParseError::InvalidEscape(s[i + 1]))
            }
        } else if c == '$' {
            match variable_at(s, i + 1) {
                Ok((field, j)) => {
                    proof {
                        lemma_variable_advances(s, i + 1);
                    }
                    parse_from(s, j, with_segment(stack, SegmentModel::Var(field)))
                },
                Err(e) => Err(e),
            }
        } else if c == '(' {
            parse_from(s, i + 1, opened(stack))
        } else if c == ')' {
            if stack.len() <= 1 {
                Err(TitleParseError::UnmatchedClose)
            } else {
                parse_from(s, i + 1, closed(stack))
            }
        } else {
            parse_from(s, i + 1, with_char(stack, c))
        }
    }
}

/// The parse of a whole pane-title format.
pub open spec fn parse_model(s: Seq<char>) -> Result<Seq<SegmentModel>, TitleParseError> {
    parse_from(s, 0, seq![empty_frame()])
}


proof fn lemma_brace_close_unique(s: Seq<char>, k: int, j: int)
    requires
        0 <= k <= j <= s.len(),
        forall|t: int| k <= t < j ==> #[trigger] s[t] != '}',
        j == s.len() || s[j] == '}',
    ensures
        brace_close(s, k) == j,
    decreases j - k,
{
    if k < j {
        lemma_brace_close_unique(s, k + 1, j);
    }
}

proof fn lemma_plain_name_end_unique(s: Seq<char>, k: int, j: int)
    requires
        0 <= k <= j <= s.len(),
        forall|t: int| k <= t < j ==> is_name_char(#[trigger] s[t]),
        j == s.len() || !is_name_char(s[j]),
    ensures
        plain_name_end(s, k) == j,
    decreases j - k,
{
    if k < j {
        lemma_plain_name_end_unique(s, k + 1, j);
    }
}

fn is_name_char_exec(c: char) -> (r: bool)
    ensures
        r == is_name_char(c),
{
    ('a' <= c && c <= 'z') || ('A' <= c && c <= 'Z') || ('0' <= c && c <= '9') || c == '_'
}

/// Parse the name after a `$` at `chars[k..]`, in either `$name` or
/// `${name}` form, returning the field and the index just past the name.
fn parse_variable(chars: &Vec<char>, k: usize) -> (r: Result<(TitleField, usize), ParseError>)
    requires
        k <= chars@.len(),
    ensures
        match variable_at(chars@, k as int) {
            Ok((f, j)) => r matches Ok((g, e)) && g == f && e == j,
            Err(err) => r matches Err(e) && e@ == err,
        },
{
    let n = chars.len();
    let ghost s = chars@;
    if k < n && chars[k] == '{' {
        let mut j = k + 1;
        let mut name = String::new();
        while j < n && chars[j] != '}'
            invariant
                n == s.len(),
                s == chars@,
                k + 1 <= j <= n,
                name@ == s.subrange(k + 1, j as int),
                forall|t: int| k + 1 <= t < j ==> #[trigger] s[t] != '}',
            decreases n - j,
        {
            push_char(&mut name, chars[j]);
            j = j + 1;
            assert(name@ =~= s.subrange(k + 1, j as int));
        }
        proof {
            lemma_brace_close_unique(s, k + 1, j as int);
        }
        if j >= n {
            return Err(ParseError::new(ParseErrorKind::UnterminatedBrace));
        }
        if j == k + 1 {
            return Err(ParseError::new(ParseErrorKind::EmptyVariableName));
        }
        match TitleField::from_name(&name) {
            Some(field) => Ok((field, j + 1)),
            None => Err(ParseError::new(ParseErrorKind::UnknownVariable(name))),
        }
    } else {
        let mut j = k;
        let mut name = String::new();
        while j < n && is_name_char_exec(chars[j])
            invariant
                n == s.len(),
                s == chars@,
                k <= j <= n,
                name@ == s.subrange(k as int, j as int),
                forall|t: int| k <= t < j ==> is_name_char(#[trigger] s[t]),
            decreases n - j,
        {
            push_char(&mut name, chars[j]);
            j = j + 1;
            assert(name@ =~= s.subrange(k as int, j as int));
        }
        proof {
            lemma_plain_name_end_unique(s, k as int, j as int);
        }
        if j == k {
            return Err(ParseError::new(ParseErrorKind::EmptyVariableName));
        }
        match TitleField::from_name(&name) {
            Some(field) => Ok((field, j)),
            None => Err(ParseError::new(ParseErrorKind::UnknownVariable(name))),
        }
    }
}

/// One level of the executable parser's stack.
struct Frame {
    segs: Vec<Segment>,
    lit: String,
}

spec fn frame_model(f: Frame) -> ParseFrame {
    ParseFrame { segs: segments_model(f.segs@), lit: f.lit@ }
}

spec fn stack_model(stack: Seq<Frame>) -> Seq<ParseFrame> {
    stack.map_values(|f: Frame| frame_model(f))
}

fn new_frame() -> (f: Frame)
    ensures
        frame_model(f) == empty_frame(),
{
    let f = Frame { segs: Vec::new(), lit: String::new() };
    assert(f.segs@ =~= Seq::<Segment>::empty());
    assert(frame_model(f).segs =~= Seq::<SegmentModel>::empty());
    assert(frame_model(f).lit =~= Seq::<char>::empty());
    f
}

/// The frame's segments with its pending literal flushed.
fn flush_frame(f: Frame) -> (segs: Vec<Segment>)
    ensures
        segments_model(segs@) == flushed(frame_model(f)),
{
    let Frame { segs, lit } = f;
    let mut segs = segs;
    if lit.as_str().is_empty() {
        segs
    } else {
        let ghost old_segs = segs@;
        let seg = Segment::Literal(lit);
        segs.push(seg);
        proof {
            lemma_segments_model_push(old_segs, seg);
        }
        segs
    }
}

fn pop_top(stack: &mut Vec<Frame>) -> (top: Frame)
    requires
        old(stack).len() >= 1,
    ensures
        final(stack)@ == old(stack)@.drop_last(),
        top == old(stack)@.last(),
{
    match stack.pop() {
        Some(f) => f,
        None => {
            assert(false);
            new_frame()
        },
    }
}

proof fn lemma_stack_model_push(stack: Seq<Frame>, f: Frame)
    ensures
        stack_model(stack.push(f)) == stack_model(stack).push(frame_model(f)),
{
    assert(stack_model(stack.push(f)) =~= stack_model(stack).push(frame_model(f)));
}

proof fn lemma_stack_model_drop_last(stack: Seq<Frame>)
    requires
        stack.len() >= 1,
    ensures
        stack_model(stack.drop_last()) == stack_model(stack).drop_last(),
        stack_model(stack).last() == frame_model(stack.last()),
        stack_model(stack).len() == stack.len(),
{
    assert(stack_model(stack.drop_last()) =~= stack_model(stack).drop_last());
}

/// Appends `c` to the innermost pending literal.
fn push_literal_char(stack: &mut Vec<Frame>, c: char)
    requires
        old(stack).len() >= 1,
    ensures
        final(stack).len() == old(stack).len(),
        stack_model(final(stack)@) == with_char(stack_model(old(stack)@), c),
{
    let ghost before = stack@;
    let Frame { segs, lit } = pop_top(stack);
    let mut lit = lit;
    push_char(&mut lit, c);
    let ghost mid = stack@;
    let f = Frame { segs, lit };
    stack.push(f);
    proof {
        lemma_stack_model_drop_last(before);
        lemma_stack_model_push(mid, f);
        assert(stack_model(stack@) =~= with_char(stack_model(before), c));
    }
}

/// Flushes the innermost literal and appends `seg` after it.
fn push_segment(stack: &mut Vec<Frame>, seg: Segment)
    requires
        old(stack).len() >= 1,
    ensures
        final(stack).len() == old(stack).len(),
        stack_model(final(stack)@) == with_segment(stack_model(old(stack)@), segment_model(seg)),
{
    let ghost before = stack@;
    let top = pop_top(stack);
    let ghost top_model = frame_model(top);
    let mut segs = flush_frame(top);
    let ghost flushed_segs = segs@;
    segs.push(seg);
    proof {
        lemma_segments_model_push(flushed_segs, seg);
    }
    let ghost mid = stack@;
    let f = Frame { segs, lit: String::new() };
    stack.push(f);
    proof {
        lemma_stack_model_drop_last(before);
        lemma_stack_model_push(mid, f);
        assert(frame_model(f).lit =~= Seq::<char>::empty());
        assert(stack_model(stack@) =~= with_segment(stack_model(before), segment_model(seg)));
    }
}

/// Flushes the innermost literal and opens a new, empty level.
fn open_group(stack: &mut Vec<Frame>)
    requires
        old(stack).len() >= 1,
    ensures
        final(stack).len() == old(stack).len() + 1,
        stack_model(final(stack)@) == opened(stack_model(old(stack)@)),
{
    let ghost before = stack@;
    let top = pop_top(stack);
    let segs = flush_frame(top);
    let ghost mid = stack@;
    let f = Frame { segs, lit: String::new() };
    stack.push(f);
    let ghost mid2 = stack@;
    let g = new_frame();
    stack.push(g);
    proof {
        lemma_stack_model_drop_last(before);
        lemma_stack_model_push(mid, f);
        lemma_stack_model_push(mid2, g);
        assert(frame_model(f).lit =~= Seq::<char>::empty());
        assert(stack_model(stack@) =~= opened(stack_model(before)));
    }
}

/// Closes the innermost level into a group appended to its parent.
fn close_group(stack: &mut Vec<Frame>)
    requires
        old(stack).len() >= 2,
    ensures
        final(stack).len() == old(stack).len() - 1,
        stack_model(final(stack)@) == closed(stack_model(old(stack)@)),
{
    let ghost before = stack@;
    let top = pop_top(stack);
    let inner = flush_frame(top);
    let ghost after_pop = stack@;
    proof {
        lemma_stack_model_drop_last(before);
    }
    push_segment(stack, Segment::Group(inner));
}

/// Parse a `[ui] pane_title_format` string into a [`Segment`] sequence.
///
/// Grammar:
/// - `$name` / `${name}` — a variable; unknown names are an error.
/// - `( … )` — a conditional group; groups nest. Unbalanced parens are an error.
/// - `\$ \( \) \\` — escapes for the four metacharacters.
/// - anything else is literal text; adjacent literal characters are
///   coalesced into one [`Segment::Literal`].
pub fn parse(input: &str) -> (result: Result<Vec<Segment>, ParseError>)
    ensures
        match parse_model(input@) {
            Ok(segs) => result matches Ok(v) && segments_model(v@) == segs,
            Err(err) => result matches Err(e) && e@ == err,
        },
{
    let chars = chars_of(input);
    let n = chars.len();
    let ghost s = chars@;
    let mut stack: Vec<Frame> = Vec::new();
    let ghost empty_stack = stack@;
    let f0 = new_frame();
    stack.push(f0);
    proof {
        lemma_stack_model_push(empty_stack, f0);
        assert(empty_stack =~= Seq::<Frame>::empty());
        assert(stack_model(stack@) =~= seq![empty_frame()]);
    }
    let mut i: usize = 0;
    while i < n
        invariant
            n == s.len(),
            s == chars@,
            s == input@,
            i <= n,
            stack.len() >= 1,
            parse_from(s, i as int, stack_model(stack@)) == parse_model(s),
        decreases n - i,
    {
        let ghost st = stack_model(stack@);
        proof {
            lemma_stack_model_drop_last(stack@);
        }
        let c = chars[i];
        if c == '\\' {
            if i + 1 >= n {
                return Err(ParseError::new(ParseErrorKind::TrailingBackslash));
            }
            let e = chars[i + 1];
            if e == '$' || e == '(' || e == ')' || e == '\\' {
                push_literal_char(&mut stack, e);
                i = i + 2;
            } else {
                return Err(ParseError::new(ParseErrorKind::InvalidEscape(e)));
            }
        } else if c == '$' {
            proof {
                lemma_variable_advances(s, i + 1);
            }
            match parse_variable(&chars, i + 1) {
                Ok((field, j)) => {
                    push_segment(&mut stack, Segment::Var(field));
                    i = j;
                },
                Err(err) => {
                    return Err(err);
                },
            }
        } else if c == '(' {
            open_group(&mut stack);
            i = i + 1;
        } else if c == ')' {
            if stack.len() == 1 {
                return Err(ParseError::new(ParseErrorKind::UnmatchedClose));
            }
            close_group(&mut stack);
            i = i + 1;
        } else {
            push_literal_char(&mut stack, c);
            i = i + 1;
        }
    }
    proof {
        lemma_stack_model_drop_last(stack@);
    }
    if stack.len() > 1 {
        return Err(ParseError::new(ParseErrorKind::UnmatchedOpen));
    }
    let top = pop_top(&mut stack);
    Ok(flush_frame(top))
}


/// Facts `a` and `b` agree on every field that `segs` references.
pub open spec fn agree_on_references(segs: Seq<SegmentModel>, a: TitleFacts, b: TitleFacts) -> bool {
    forall|f: TitleField| mentions(segs, f) ==> fact_text(a, f) == fact_text(b, f)
}

proof fn lemma_segment_agreement(seg: SegmentModel, a: TitleFacts, b: TitleFacts)
    requires
        forall|f: TitleField| segment_mentions(seg, f) ==> fact_text(a, f) == fact_text(b, f),
    ensures
        segment_has_value(seg, a) == segment_has_value(seg, b),
        expand_segment(seg, a) == expand_segment(seg, b),
    decreases seg,
{
    match seg {
        SegmentModel::Literal(_) => {},
        SegmentModel::Var(field) => {
            assert(segment_mentions(seg, field));
        },
        SegmentModel::Group(inner) => {
            lemma_segments_agreement(inner, a, b);
        },
    }
}

proof fn lemma_segments_agreement(segs: Seq<SegmentModel>, a: TitleFacts, b: TitleFacts)
    requires
        agree_on_references(segs, a, b),
    ensures
        has_value(segs, a) == has_value(segs, b),
        expand_model(segs, a) == expand_model(segs, b),
    decreases segs,
{
    if segs.len() > 0 {
        let init = segs.subrange(0, segs.len() - 1);
        let last = segs[segs.len() - 1];
        assert forall|f: TitleField| mentions(init, f) implies fact_text(a, f) == fact_text(b, f) by {
            assert(mentions(segs, f));
        }
        assert forall|f: TitleField| segment_mentions(last, f) implies fact_text(a, f) == fact_text(
            b,
            f,
        ) by {
            assert(mentions(segs, f));
        }
        lemma_segments_agreement(init, a, b);
        lemma_segment_agreement(last, a, b);
    }
}

/// Expansion reads only the facts a format references: two sets of facts
/// that agree on every field [`references`] reports give the same title.
pub proof fn law_expand_reads_only_referenced_fields(
    segs: Seq<SegmentModel>,
    a: TitleFacts,
    b: TitleFacts,
)
    requires
        agree_on_references(segs, a, b),
    ensures
        expand_model(segs, a) == expand_model(segs, b),
{
    lemma_segments_agreement(segs, a, b);
}

proof fn lemma_segment_value_needs_variable(seg: SegmentModel, facts: TitleFacts)
    ensures
        segment_has_value(seg, facts) ==> exists|f: TitleField|
            #[trigger] segment_mentions(seg, f) && fact_text(facts, f).len() > 0,
    decreases seg,
{
    match seg {
        SegmentModel::Literal(_) => {},
        SegmentModel::Var(field) => {
            assert(segment_mentions(seg, field));
        },
        SegmentModel::Group(inner) => {
            lemma_value_needs_variable(inner, facts);
            if has_value(inner, facts) {
                let f = choose|f: TitleField| #[trigger]
                    mentions(inner, f) && fact_text(facts, f).len() > 0;
                assert(segment_mentions(seg, f));
            }
        },
    }
}

proof fn lemma_value_needs_variable(segs: Seq<SegmentModel>, facts: TitleFacts)
    ensures
        has_value(segs, facts) ==> exists|f: TitleField|
            #[trigger] mentions(segs, f) && fact_text(facts, f).len() > 0,
    decreases segs,
{
    if segs.len() > 0 {
        let init = segs.subrange(0, segs.len() - 1);
        let last = segs[segs.len() - 1];
        lemma_value_needs_variable(init, facts);
        lemma_segment_value_needs_variable(last, facts);
        if has_value(init, facts) {
            let f = choose|f: TitleField| #[trigger] mentions(init, f) && fact_text(facts, f).len() > 0;
            assert(mentions(segs, f));
        } else if segment_has_value(last, facts) {
            let f = choose|f: TitleField| #[trigger]
                segment_mentions(last, f) && fact_text(facts, f).len() > 0;
            assert(mentions(segs, f));
        }
    }
}

/// A group renders only through a variable: a group whose contents reference
/// no field resolving non-empty (in particular a group of pure literals)
/// renders nothing.
pub proof fn law_group_without_values_renders_nothing(inner: Seq<SegmentModel>, facts: TitleFacts)
    requires
        forall|f: TitleField| mentions(inner, f) ==> fact_text(facts, f).len() == 0,
    ensures
        expand_segment(SegmentModel::Group(inner), facts) == Seq::<char>::empty(),
{
    lemma_value_needs_variable(inner, facts);
}

/// Expansion is compositional: the title of `a` followed by `b` is the title
/// of `a` followed by the title of `b`.
pub proof fn law_expand_concatenates(
    a: Seq<SegmentModel>,
    b: Seq<SegmentModel>,
    facts: TitleFacts,
)
    ensures
        expand_model(a + b, facts) == expand_model(a, facts) + expand_model(b, facts),
    decreases b.len(),
{
    if b.len() == 0 {
        assert(a + b =~= a);
        assert(expand_model(a, facts) + Seq::<char>::empty() =~= expand_model(a, facts));
    } else {
        let init = b.subrange(0, b.len() - 1);
        let last = b[b.len() - 1];
        law_expand_concatenates(a, init, facts);
        assert((a + b) =~= (a + init).push(last));
        lemma_expand_push(a + init, last, facts);
        assert(b =~= init.push(last));
        lemma_expand_push(init, last, facts);
        assert(expand_model(a, facts) + (expand_model(init, facts) + expand_segment(last, facts))
            =~= (expand_model(a, facts) + expand_model(init, facts)) + expand_segment(last, facts));
    }
}

/// A segment whose literals are non-empty and whose groups are coalesced.
pub open spec fn segment_coalesced(seg: SegmentModel) -> bool
    decreases seg,
{
    match seg {
        SegmentModel::Literal(text) => text.len() > 0,
        SegmentModel::Var(_) => true,
        SegmentModel::Group(inner) => coalesced(inner),
    }
}

/// No literal is empty and no two literals are adjacent, at any depth.
pub open spec fn coalesced(segs: Seq<SegmentModel>) -> bool
    decreases segs,
{
    if segs.len() == 0 {
        true
    } else {
        let rest = segs.subrange(0, segs.len() - 1);
        let last = segs[segs.len() - 1];
        coalesced(rest) && segment_coalesced(last) && !(last is Literal && rest.len() > 0 && rest[rest.len()
            - 1] is Literal)
    }
}

/// The sequence does not end with a literal.
pub open spec fn ends_open(segs: Seq<SegmentModel>) -> bool {
    segs.len() == 0 || !(segs[segs.len() - 1] is Literal)
}

/// The parser's stack keeps literals coalesced: every level's segments
/// are, the levels below the innermost have no pending literal, and the
/// innermost level's segments do not end with a literal (its pending text
/// is the next literal).
pub open spec fn stack_coalesced(stack: Seq<ParseFrame>) -> bool {
    &&& stack.len() >= 1
    &&& forall|k: int| 0 <= k < stack.len() ==> coalesced(#[trigger] stack[k].segs)
    &&& forall|k: int| 0 <= k < stack.len() - 1 ==> (#[trigger] stack[k].lit).len() == 0
    &&& ends_open(stack.last().segs)
}

proof fn lemma_coalesced_push(segs: Seq<SegmentModel>, seg: SegmentModel)
    ensures
        coalesced(segs.push(seg)) == (coalesced(segs) && segment_coalesced(seg) && !(seg is Literal
            && segs.len() > 0 && segs[segs.len() - 1] is Literal)),
{
    assert(segs.push(seg).subrange(0, segs.len() as int) =~= segs);
}

proof fn lemma_flushed_coalesced(f: ParseFrame)
    requires
        coalesced(f.segs),
        f.lit.len() > 0 ==> ends_open(f.segs),
    ensures
        coalesced(flushed(f)),
{
    if f.lit.len() > 0 {
        lemma_coalesced_push(f.segs, SegmentModel::Literal(f.lit));
    }
}

proof fn lemma_parse_from_coalesced(s: Seq<char>, i: int, stack: Seq<ParseFrame>)
    requires
        stack_coalesced(stack),
    ensures
        parse_from(s, i, stack) matches Ok(segs) ==> coalesced(segs),
    decreases s.len() - i,
{
    let n = stack.len();
    let top = stack.last();
    assert(coalesced(stack[n - 1].segs));
    if i < 0 || i >= s.len() {
        if n <= 1 {
            lemma_flushed_coalesced(top);
        }
    } else {
        let c = s[i];
        if c == '\\' {
            if i + 1 < s.len() && is_escapable(s[i + 1]) {
                let next = with_char(stack, s[i + 1]);
                assert(next.last() == ParseFrame { segs: top.segs, lit: top.lit.push(s[i + 1]) });
                assert forall|k: int| 0 <= k < next.len() implies coalesced(#[trigger] next[k].segs) by {
                    if k < n - 1 {
                        assert(next[k] == stack[k]);
                    }
                }
                assert forall|k: int| 0 <= k < next.len() - 1 implies (#[trigger] next[k].lit).len() == 0 by {
                    assert(next[k] == stack[k]);
                }
                lemma_parse_from_coalesced(s, i + 2, next);
            }
        } else if c == '$' {
            match variable_at(s, i + 1) {
                Ok((field, j)) => {
                    lemma_variable_advances(s, i + 1);
                    let seg = SegmentModel::Var(field);
                    let next = with_segment(stack, seg);
                    lemma_flushed_coalesced(top);
                    lemma_coalesced_push(flushed(top), seg);
                    assert forall|k: int| 0 <= k < next.len() implies coalesced(#[trigger] next[k].segs) by {
                        if k < n - 1 {
                            assert(next[k] == stack[k]);
                        }
                    }
                    assert forall|k: int| 0 <= k < next.len() - 1 implies (#[trigger] next[k].lit).len() == 0 by {
                        assert(next[k] == stack[k]);
                    }
                    lemma_parse_from_coalesced(s, j, next);
                },
                Err(_) => {},
            }
        } else if c == '(' {
            let next = opened(stack);
            lemma_flushed_coalesced(top);
            assert(next[n - 1] == ParseFrame { segs: flushed(top), lit: Seq::empty() });
            assert forall|k: int| 0 <= k < next.len() implies coalesced(#[trigger] next[k].segs) by {
                if k < n - 1 {
                    assert(next[k] == stack[k]);
                }
            }
            assert forall|k: int| 0 <= k < next.len() - 1 implies (#[trigger] next[k].lit).len() == 0 by {
                if k < n - 1 {
                    assert(next[k] == stack[k]);
                }
            }
            lemma_parse_from_coalesced(s, i + 1, next);
        } else if c == ')' {
            if n > 1 {
                let inner = flushed(top);
                lemma_flushed_coalesced(top);
                let rest = stack.drop_last();
                let parent = rest.last();
                assert(parent == stack[n - 2]);
                assert(coalesced(stack[n - 2].segs));
                assert(parent.lit.len() == 0);
                assert(flushed(parent) == parent.segs);
                let seg = SegmentModel::Group(inner);
                lemma_coalesced_push(parent.segs, seg);
                let next = closed(stack);
                assert(next == with_segment(rest, seg));
                assert forall|k: int| 0 <= k < next.len() implies coalesced(#[trigger] next[k].segs) by {
                    if k < n - 2 {
                        assert(next[k] == stack[k]);
                    }
                }
                assert forall|k: int| 0 <= k < next.len() - 1 implies (#[trigger] next[k].lit).len() == 0 by {
                    assert(next[k] == stack[k]);
                }
                lemma_parse_from_coalesced(s, i + 1, next);
            }
        } else {
            let next = with_char(stack, c);
            assert(next.last() == ParseFrame { segs: top.segs, lit: top.lit.push(c) });
            assert forall|k: int| 0 <= k < next.len() implies coalesced(#[trigger] next[k].segs) by {
                if k < n - 1 {
                    assert(next[k] == stack[k]);
                }
            }
            assert forall|k: int| 0 <= k < next.len() - 1 implies (#[trigger] next[k].lit).len() == 0 by {
                assert(next[k] == stack[k]);
            }
            lemma_parse_from_coalesced(s, i + 1, next);
        }
    }
}

/// Parsing coalesces literal text: a parsed format has no empty literal
/// and no two adjacent literals, at any depth of groups.
pub proof fn law_parse_coalesces_literals(s: Seq<char>)
    ensures
        parse_model(s) matches Ok(segs) ==> coalesced(segs),
{
    let start = seq![empty_frame()];
    assert(start.last() == empty_frame());
    assert(coalesced(Seq::<SegmentModel>::empty()));
    assert forall|k: int| 0 <= k < start.len() implies coalesced(#[trigger] start[k].segs) by {
        assert(start[k] == empty_frame());
    }
    lemma_parse_from_coalesced(s, 0, start);
}


/// Each variable name reads the fact of the same name: `$dir` resolves to
/// the facts' `dir`, `$branch` to their `branch`, and so on for every
/// known name, whatever the facts hold; any other name is unknown.
pub proof fn law_variable_names_read_their_own_facts(facts: TitleFacts, other: Seq<char>)
    ensures
        field_for_name("dir"@) matches Some(f) && fact_text(facts, f) == facts.dir@,
        field_for_name("cwd"@) matches Some(f) && fact_text(facts, f) == facts.cwd@,
        field_for_name("process"@) matches Some(f) && fact_text(facts, f) == facts.process@,
        field_for_name("agent"@) matches Some(f) && fact_text(facts, f) == facts.agent@,
        field_for_name("branch"@) matches Some(f) && fact_text(facts, f) == facts.branch@,
        field_for_name("ahead_behind"@) matches Some(f) && fact_text(facts, f) == facts.ahead_behind@,
        field_for_name("git_status"@) matches Some(f) && fact_text(facts, f) == facts.git_status@,
        field_for_name("zoom"@) matches Some(f) && fact_text(facts, f) == facts.zoom@,
        field_for_name("label"@) matches Some(f) && fact_text(facts, f) == facts.label@,
        field_for_name(other) is Some ==> other == "dir"@||other == "cwd"@||other == "process"@||other == "agent"@||other == "branch"@||other == "ahead_behind"@||other == "git_status"@||other == "zoom"@||other == "label"@,
{
    reveal_strlit("dir");
    reveal_strlit("cwd");
    reveal_strlit("process");
    reveal_strlit("agent");
    reveal_strlit("branch");
    reveal_strlit("ahead_behind");
    reveal_strlit("git_status");
    reveal_strlit("zoom");
    reveal_strlit("label");
    assert("cwd"@[0] != "dir"@[0]);
    assert("process"@.len() != "dir"@.len());
    assert("process"@.len() != "cwd"@.len());
    assert("agent"@.len() != "dir"@.len());
    assert("agent"@.len() != "cwd"@.len());
    assert("agent"@.len() != "process"@.len());
    assert("branch"@.len() != "dir"@.len());
    assert("branch"@.len() != "cwd"@.len());
    assert("branch"@.len() != "process"@.len());
    assert("branch"@.len() != "agent"@.len());
    assert("ahead_behind"@.len() != "dir"@.len());
    assert("ahead_behind"@.len() != "cwd"@.len());
    assert("ahead_behind"@.len() != "process"@.len());
    assert("ahead_behind"@.len() != "agent"@.len());
    assert("ahead_behind"@.len() != "branch"@.len());
    assert("git_status"@.len() != "dir"@.len());
    assert("git_status"@.len() != "cwd"@.len());
    assert("git_status"@.len() != "process"@.len());
    assert("git_status"@.len() != "agent"@.len());
    assert("git_status"@.len() != "branch"@.len());
    assert("git_status"@.len() != "ahead_behind"@.len());
    assert("zoom"@.len() != "dir"@.len());
    assert("zoom"@.len() != "cwd"@.len());
    assert("zoom"@.len() != "process"@.len());
    assert("zoom"@.len() != "agent"@.len());
    assert("zoom"@.len() != "branch"@.len());
    assert("zoom"@.len() != "ahead_behind"@.len());
    assert("zoom"@.len() != "git_status"@.len());
    assert("label"@.len() != "dir"@.len());
    assert("label"@.len() != "cwd"@.len());
    assert("label"@.len() != "process"@.len());
    assert("label"@[0] != "agent"@[0]);
    assert("label"@.len() != "branch"@.len());
    assert("label"@.len() != "ahead_behind"@.len());
    assert("label"@.len() != "git_status"@.len());
    assert("label"@.len() != "zoom"@.len());
}

} // verus!
