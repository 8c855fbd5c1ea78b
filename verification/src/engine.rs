//! The scan pipeline: bounded sample, rule matches, entropy, fused outcome.

use vstd::prelude::*;
use crate::config::{ConfigError, ScannerConfig};
use crate::entropy::{calculate_entropy, regions_well_formed};
pub use crate::entropy::EntropyReport;
use crate::heuristics;
use crate::heuristics::{fuse, Score};
use crate::text::chars_of;
use crate::ScanOutcome;

verus! {

/// Largest number of bytes of a file that is ever read for analysis: 2 MiB.
pub const READ_CAP: u64 = 2097152;

/// Number of bytes to read from a file of `size` bytes: the whole file, or
/// the cap if the file is larger.
pub fn read_limit(size: u64) -> (limit: u64)
    ensures
        limit == if size <= READ_CAP {
            size
        } else {
            READ_CAP
        },
        limit <= READ_CAP,
        size > READ_CAP ==> limit == READ_CAP,
{
    if size <= READ_CAP {
        size
    } else {
        READ_CAP
    }
}

/// The part of a file that is analysed: its first bytes, never more than the
/// read cap.
pub struct ContentSample {
    bytes: Vec<u8>,
}

impl ContentSample {
    #[verifier::type_invariant]
    spec fn bounded(self) -> bool {
        self.bytes@.len() <= READ_CAP
    }

    /// The bytes of the sample.
    pub closed spec fn view(&self) -> Seq<u8> {
        self.bytes@
    }

    /// The sample of a file whose content begins with `content`: `content`
    /// itself, cut to the read cap if it is longer.
    pub fn from_bytes(content: Vec<u8>) -> (sample: Self)
        ensures
            sample@ == if content@.len() <= READ_CAP {
                content@
            } else {
                content@.take(READ_CAP as int)
            },
            sample@.len() <= READ_CAP,
            content@.len() > READ_CAP ==> sample@.len() == READ_CAP,
    {
        let mut bytes = content;
        if bytes.len() > READ_CAP as usize {
            bytes.truncate(READ_CAP as usize);
        }
        ContentSample { bytes }
    }

    /// The bytes of the sample.
    pub fn as_slice(&self) -> (bytes: &[u8])
        ensures
            bytes@ == self@,
            bytes@.len() <= READ_CAP,
    {
        proof {
            use_type_invariant(self);
        }
        self.bytes.as_slice()
    }

    /// Number of bytes in the sample.
    pub fn len(&self) -> (n: usize)
        ensures
            n == self@.len(),
            n <= READ_CAP,
    {
        proof {
            use_type_invariant(self);
        }
        self.bytes.len()
    }
}

/// One scan request: the file to look at.
#[derive(Debug, Clone)]
pub struct ScanContext {
    pub target: String,
}

impl ScanContext {
    pub fn new(target: String) -> (ctx: Self)
        ensures
            ctx.target == target,
    {
        Self { target }
    }
}

/// The value of one metadata entry of a rule.
#[derive(Debug, Clone, PartialEq, Eq)]
pub enum MetadataValue {
    Integer(i64),
    Text(String),
    Boolean(bool),
}

/// A rule of the corpus that matched the sample.
#[derive(Debug, Clone, PartialEq, Eq)]
pub struct SignatureMatch {
    /// Identifier of the rule.
    pub rule: String,
    /// Namespace the rule was compiled in.
    pub namespace: String,
    /// The rule's metadata entries, in the order the rule lists them.
    pub metadata: Vec<(String, MetadataValue)>,
}

/// Why a scan produced no outcome.
#[derive(Debug, Clone, PartialEq, Eq)]
pub enum ScanError {
    /// The scan ran under a configuration that does not validate.
    Config(ConfigError),
    /// The target could not be opened or read; the text says why.
    Io(String),
    /// The engine was asked to scan before any rules were loaded.
    RulesNotLoaded,
    /// The rule text could not be compiled; the text says why.
    RuleCompilation(String),
    /// The rule compiler could not be had, or could not build the corpus
    /// of a text it had accepted: the machine lacks memory or thread
    /// storage. The text says what the compiler reported.
    CorpusUnavailable(String),
    /// The corpus scan ran out of time.
    Timeout,
    /// The corpus scan failed for another reason; the text says why.
    Engine(String),
}

/// The outcome that the pipeline assembles from what its stages found.
pub open spec fn fused_outcome(
    config: ScannerConfig,
    ctx: ScanContext,
    signatures: Vec<SignatureMatch>,
    entropy: EntropyReport,
) -> ScanOutcome {
    ScanOutcome {
        path: ctx.target,
        signatures,
        heuristic_score: Score((config.heuristic_threshold / 2) as u32),
        entropy,
        recommended_action: fuse(
            signatures@.len(),
            config.heuristic_threshold as int / 2,
            config.heuristic_threshold as int,
        ),
    }
}

/// Last stage of the pipeline: score the sample and fuse the rule matches and
/// the score into the outcome record.
pub fn fuse_outcome(
    config: &ScannerConfig,
    ctx: &ScanContext,
    sample: &[u8],
    signatures: Vec<SignatureMatch>,
    entropy: EntropyReport,
) -> (outcome: ScanOutcome)
    ensures
        outcome == fused_outcome(*config, *ctx, signatures, entropy),
        signatures@.len() > 0 ==> outcome.recommended_action
            == crate::RecommendedAction::Quarantine,
{
    let heuristic_score = heuristics::score(ctx.target.as_str(), sample, config);
    let recommended_action = heuristics::recommend(signatures.as_slice(), heuristic_score, config);
    ScanOutcome {
        path: ctx.target.clone(),
        signatures,
        heuristic_score,
        entropy,
        recommended_action,
    }
}

/// Where rule files are looked for, in the order of preference.
pub const RULE_PATHS: [&'static str; 3] = [
    "rules/production.yar",
    "/etc/charmedwoa-av/rules/production.yar",
    "rules/example.yar",
];

/// Seconds that one scan of a sample against the corpus may take.
pub const SCAN_TIMEOUT_SECS: i32 = 30;

/// `yara::Compiler`: a rule compiler that text is added to.
#[verifier::external_type_specification]
#[verifier::external_body]
pub struct ExCompiler(yara::Compiler);

/// `yara::Rules`: a compiled rule corpus.
#[verifier::external_type_specification]
#[verifier::external_body]
pub struct ExRules(yara::Rules);

/// The rule text that has been added to a compiler, in the order it was added.
pub uninterp spec fn compiler_source(compiler: yara::Compiler) -> Seq<char>;

/// The rule text that a corpus was compiled from.
pub uninterp spec fn rules_source(rules: yara::Rules) -> Seq<char>;

/// The files that a compiler resolves an `include` from, in the order it
/// looks through them: each by the file that includes it, its name there,
/// and its text.
pub uninterp spec fn compiler_includes(compiler: yara::Compiler) -> Seq<(Option<Seq<char>>, Seq<char>, Seq<char>)>;

/// The files that the compiler of a corpus resolved an `include` from.
pub uninterp spec fn rules_includes(rules: yara::Rules) -> Seq<(Option<Seq<char>>, Seq<char>, Seq<char>)>;

/// Whether the compiler accepts `source`: the verdict of its lexer and
/// parser on rule text that is added to a compiler which holds no text and
/// resolves an `include` from `includes` and from nowhere else.
pub uninterp spec fn rule_text_compiles(
    source: Seq<char>,
    includes: Seq<(Option<Seq<char>>, Seq<char>, Seq<char>)>,
) -> bool;

/// The rules that a corpus holds, in the order of the corpus, each by its
/// namespace and its identifier.
pub uninterp spec fn corpus_rules(rules: yara::Rules) -> Seq<(Seq<char>, Seq<char>)>;

/// The namespace and the identifier of the rule behind each match.
pub open spec fn match_names(found: Seq<SignatureMatch>) -> Seq<(Seq<char>, Seq<char>)> {
    Seq::new(found.len(), |k: int| (found[k].namespace@, found[k].rule@))
}

/// `picked` are the entries of `all` at the positions `at`, which increase:
/// entries of `all` in their order, none of them twice.
pub open spec fn selects(
    picked: Seq<(Seq<char>, Seq<char>)>,
    all: Seq<(Seq<char>, Seq<char>)>,
    at: Seq<int>,
) -> bool {
    &&& at.len() == picked.len()
    &&& forall|k: int|
        0 <= k < at.len() ==> 0 <= #[trigger] at[k] < all.len() && picked[k] == all[at[k]]
    &&& forall|j: int, k: int| 0 <= j < k < at.len() ==> #[trigger] at[j] < #[trigger] at[k]
}

/// `picked` is a selection of `all`: some of its entries, in their order,
/// none of them twice.
pub open spec fn is_selection_of(
    picked: Seq<(Seq<char>, Seq<char>)>,
    all: Seq<(Seq<char>, Seq<char>)>,
) -> bool {
    exists|at: Seq<int>| selects(picked, all, at)
}

/// The empty list is a selection of every list.
pub proof fn lemma_nothing_is_a_selection(all: Seq<(Seq<char>, Seq<char>)>)
    ensures
        is_selection_of(Seq::empty(), all),
{
    assert(selects(Seq::empty(), all, Seq::<int>::empty()));
}

/// Increasing positions below `bound` are at most `bound` many, and none
/// lies below its own place.
proof fn lemma_increasing_positions(at: Seq<int>, bound: int)
    requires
        forall|k: int| 0 <= k < at.len() ==> 0 <= #[trigger] at[k] < bound,
        forall|j: int, k: int| 0 <= j < k < at.len() ==> #[trigger] at[j] < #[trigger] at[k],
    ensures
        at.len() <= bound || at.len() == 0,
        forall|k: int| 0 <= k < at.len() ==> k <= #[trigger] at[k],
    decreases at.len(),
{
    if at.len() > 0 {
        let shorter = at.drop_last();
        lemma_increasing_positions(shorter, bound);
        let last = at.len() - 1;
        if last > 0 {
            assert(shorter[last - 1] == at[last - 1]);
            assert(at[last - 1] < at[last]);
        }
        assert forall|k: int| 0 <= k < at.len() implies k <= #[trigger] at[k] by {
            if k < last {
                assert(shorter[k] == at[k]);
            }
        }
        assert(last <= at[last]);
    }
}

/// A selection has at most as many entries as what it selects from.
pub proof fn lemma_selection_is_no_longer(
    picked: Seq<(Seq<char>, Seq<char>)>,
    all: Seq<(Seq<char>, Seq<char>)>,
)
    requires
        is_selection_of(picked, all),
    ensures
        picked.len() <= all.len(),
{
    let at = choose|at: Seq<int>| selects(picked, all, at);
    lemma_increasing_positions(at, all.len() as int);
}

/// Whether `c` is a hexadecimal digit of value eight or more.
pub open spec fn is_high_hex_digit(c: char) -> bool {
    let u = c as u32;
    ||| 0x38 <= u <= 0x39
    ||| 0x61 <= u <= 0x66
    ||| 0x41 <= u <= 0x46
}

/// Whether `c` is a blank: a space or a tab.
pub open spec fn is_blank(c: char) -> bool {
    c == ' ' || c == '\t'
}

/// What the character at `i` must be where it may be code: ASCII other than
/// NUL, and not the start of an escape `\x` with a digit of eight or more.
pub open spec fn strict_at(text: Seq<char>, i: int) -> bool {
    0 < text[i] as u32 <= 0x7f && !high_escape_at(text, i)
}

/// Whether a `*/` begins at or after `i` on the line of `i`.
pub open spec fn closes_on_line(text: Seq<char>, i: int) -> bool
    decreases text.len() - i,
{
    if i < 0 || i + 1 >= text.len() || text[i] == '\n' {
        false
    } else if text[i] == '*' && text[i + 1] == '/' {
        true
    } else {
        closes_on_line(text, i + 1)
    }
}

/// Whether `c` may begin an identifier: a letter or an underscore.
pub open spec fn is_name_start(c: char) -> bool {
    let u = c as u32;
    0x41 <= u <= 0x5a || 0x61 <= u <= 0x7a || u == 0x5f
}

/// Whether `c` may stand in an identifier: a letter, a digit or an
/// underscore.
pub open spec fn is_name_char(c: char) -> bool {
    is_name_start(c) || 0x30 <= c as u32 <= 0x39
}

/// Where a character stands, as far as a reading of the text from left to
/// right can tell.
#[derive(Debug, Clone, Copy, PartialEq, Eq, Structural)]
pub enum Place {
    /// Between tokens: every string, regular expression and comment that
    /// was opened has been closed.
    Clear,
    /// In the rest of a line on which the reading lost track.
    Code,
    /// In a comment `//` that runs to the end of the line.
    LineComment,
    /// In a comment `/*`, which ends at the first `*/` behind its slash.
    Block,
    /// In such a comment, behind a `*`: a `/` ends the comment.
    BlockStar,
    /// In an identifier.
    MetaName,
    /// Behind an identifier and blanks, before an `=`.
    MetaEquals,
    /// Behind `identifier =`, before the quote that opens a value.
    MetaValue,
    /// In the string behind `identifier =`: the value of a metadata entry.
    MetaString,
    /// In that string, behind a backslash.
    MetaEscape,
    /// In a `$identifier`.
    PatternName,
    /// Behind a `$identifier` and blanks, before an `=`.
    PatternEquals,
    /// Behind `$identifier =`, before the quote that opens a pattern.
    PatternValue,
    /// In the string behind `$identifier =`: a pattern of the rule.
    PatternString,
    /// In that string, behind a backslash.
    PatternEscape,
    /// In any other string.
    Text,
    /// In such a string, behind a backslash.
    TextEscape,
    /// In a regular expression.
    Regex,
    /// In a regular expression, behind a backslash.
    RegexEscape,
}

/// Whether an escape `\x` with a digit of eight or more begins at `i`.
pub open spec fn high_escape_at(text: Seq<char>, i: int) -> bool {
    i + 2 < text.len() && text[i] == '\\' && text[i + 1] == 'x' && is_high_hex_digit(text[i + 2])
}

/// Whether the character at `i` is ASCII other than NUL.
pub open spec fn ascii_at(text: Seq<char>, i: int) -> bool {
    0 < text[i] as u32 <= 0x7f
}

/// Whether the character at `i` may stand at the place `place`: anything
/// but NUL in a comment and in a pattern string, the same short of an
/// escape of a high byte in a metadata string, ASCII in a regular
/// expression, and ASCII short of an escape of a high byte anywhere else.
pub open spec fn allowed_at(text: Seq<char>, i: int, place: Place) -> bool {
    match place {
        Place::LineComment | Place::Block | Place::BlockStar | Place::PatternString
        | Place::PatternEscape => text[i] as u32 != 0,
        Place::MetaString | Place::MetaEscape => text[i] as u32 != 0 && !high_escape_at(text, i),
        Place::Regex | Place::RegexEscape => ascii_at(text, i),
        _ => strict_at(text, i),
    }
}

/// The place behind the character at `i`, which stands between tokens.
///
/// A slash opens a comment or a regular expression, a quote a string, a
/// letter or a `$` an identifier. The reading gives up for the rest of the
/// line, to `Code`, where it cannot know what the compiler reads: at a slash
/// behind a `*`, which ends a comment that the reading may not know of; at
/// the quote of an include, behind which the included file is read; and at a
/// `//` or a quote with a `*/` further on in the line. An identifier with a
/// `*/` further on in the line is not followed up.
pub open spec fn place_between(text: Seq<char>, i: int) -> Place {
    let c = text[i];
    if c == '/' {
        if i > 0 && text[i - 1] == '*' {
            Place::Code
        } else if i + 1 < text.len() && text[i + 1] == '*' {
            Place::Block
        } else if i + 1 < text.len() && text[i + 1] == '/' {
            if closes_on_line(text, i) {
                Place::Code
            } else {
                Place::LineComment
            }
        } else {
            Place::Regex
        }
    } else if c == '"' {
        if may_open_include(text, i) || closes_on_line(text, i) {
            Place::Code
        } else {
            Place::Text
        }
    } else if is_name_start(c) && !closes_on_line(text, i) {
        Place::MetaName
    } else if c == '$' && !closes_on_line(text, i) {
        Place::PatternName
    } else {
        Place::Clear
    }
}

/// The place behind a character `c` inside a string or a regular
/// expression, which ends at the end of its line at the latest: `closed`
/// says whether `c` ends it, `escape` is the place behind a backslash and
/// `inside` the place behind any other character.
pub open spec fn place_within(c: char, closed: bool, escape: Place, inside: Place) -> Place {
    if c == '\n' || closed {
        Place::Clear
    } else if c == '\\' {
        escape
    } else {
        inside
    }
}

/// The place behind the character at `i`, which stands in an identifier:
/// `name` in the identifier still, `value` behind an `=`, `equals` behind a
/// blank, and else as between tokens.
pub open spec fn place_in_name(
    text: Seq<char>,
    i: int,
    name: Place,
    equals: Place,
    value: Place,
) -> Place {
    let c = text[i];
    if is_name_char(c) {
        name
    } else if c == '=' {
        value
    } else if is_blank(c) {
        equals
    } else {
        place_between(text, i)
    }
}

/// The place behind the character at `i`, which stands where `wanted` is
/// looked for: `found` behind it, `waiting` behind a blank, and else as
/// between tokens.
pub open spec fn place_before(
    text: Seq<char>,
    i: int,
    wanted: char,
    waiting: Place,
    found: Place,
) -> Place {
    let c = text[i];
    if c == wanted {
        found
    } else if is_blank(c) {
        waiting
    } else {
        place_between(text, i)
    }
}

/// The place of the character behind the one at `i`, which stands at `place`.
pub open spec fn place_after(text: Seq<char>, i: int, place: Place) -> Place {
    let c = text[i];
    match place {
        Place::Clear => place_between(text, i),
        Place::Code | Place::LineComment => if c == '\n' {
            Place::Clear
        } else {
            place
        },
        Place::Block => if c == '*' {
            Place::BlockStar
        } else {
            Place::Block
        },
        Place::BlockStar => if c == '/' {
            Place::Clear
        } else if c == '*' {
            Place::BlockStar
        } else {
            Place::Block
        },
        Place::MetaName => place_in_name(
            text,
            i,
            Place::MetaName,
            Place::MetaEquals,
            Place::MetaValue,
        ),
        Place::MetaEquals => place_before(text, i, '=', Place::MetaEquals, Place::MetaValue),
        Place::MetaValue => place_before(text, i, '"', Place::MetaValue, Place::MetaString),
        Place::MetaString => place_within(c, c == '"', Place::MetaEscape, Place::MetaString),
        Place::MetaEscape => place_within(c, false, Place::MetaString, Place::MetaString),
        Place::PatternName => place_in_name(
            text,
            i,
            Place::PatternName,
            Place::PatternEquals,
            Place::PatternValue,
        ),
        Place::PatternEquals => place_before(
            text,
            i,
            '=',
            Place::PatternEquals,
            Place::PatternValue,
        ),
        Place::PatternValue => place_before(
            text,
            i,
            '"',
            Place::PatternValue,
            Place::PatternString,
        ),
        Place::PatternString => place_within(
            c,
            c == '"',
            Place::PatternEscape,
            Place::PatternString,
        ),
        Place::PatternEscape => place_within(c, false, Place::PatternString, Place::PatternString),
        Place::Text => place_within(c, c == '"', Place::TextEscape, Place::Text),
        Place::TextEscape => place_within(c, false, Place::Text, Place::Text),
        Place::Regex => place_within(c, c == '/', Place::RegexEscape, Place::Regex),
        Place::RegexEscape => place_within(c, false, Place::Regex, Place::Regex),
    }
}

/// Every character from `i` on may stand where it stands, the one at `i`
/// standing at `place`.
pub open spec fn plain_from(text: Seq<char>, i: int, place: Place) -> bool
    decreases text.len() - i,
{
    if i < 0 || i >= text.len() {
        true
    } else {
        allowed_at(text, i, place) && plain_from(text, i + 1, place_after(text, i, place))
    }
}

/// Index of the first character of the run of blanks that ends before `k`.
pub open spec fn blanks_start(text: Seq<char>, k: int) -> int
    decreases k,
{
    if 0 < k <= text.len() && is_blank(text[k - 1]) {
        blanks_start(text, k - 1)
    } else {
        k
    }
}

/// The word that opens an include.
pub open spec fn include_word() -> Seq<char> {
    seq!['i', 'n', 'c', 'l', 'u', 'd', 'e']
}

/// Whether the quote at `q` may open the name of an include: it stands
/// behind the word `include` and one or more blanks.
pub open spec fn may_open_include(text: Seq<char>, q: int) -> bool {
    let m = blanks_start(text, q);
    &&& text[q] == '"'
    &&& m < q
    &&& m >= 7
    &&& text.subrange(m - 7, m) == include_word()
}

/// Whether a quote stands at or after `i` on the line of `i`.
pub open spec fn quote_on_line(text: Seq<char>, i: int) -> bool
    decreases text.len() - i,
{
    if i < 0 || i >= text.len() || text[i] == '\n' {
        false
    } else if text[i] == '"' {
        true
    } else {
        quote_on_line(text, i + 1)
    }
}

/// No name of an include is left open at the end of its line.
pub open spec fn includes_close(text: Seq<char>) -> bool {
    forall|q: int|
        0 <= q < text.len() && #[trigger] may_open_include(text, q) ==> quote_on_line(text, q + 1)
}

/// Index of the first quote at or after `i`; the length of the text where
/// no quote follows.
pub open spec fn next_quote(text: Seq<char>, i: int) -> int
    decreases text.len() - i,
{
    if i < 0 || i >= text.len() {
        text.len() as int
    } else if text[i] == '"' {
        i
    } else {
        next_quote(text, i + 1)
    }
}

/// The names between the quotes of the includes that open before `k`, in
/// the order of the text.
pub open spec fn include_names_before(text: Seq<char>, k: int) -> Seq<Seq<char>>
    decreases k,
{
    if k <= 0 || k > text.len() {
        Seq::empty()
    } else {
        let earlier = include_names_before(text, k - 1);
        let close = next_quote(text, k);
        if may_open_include(text, k - 1) && close < text.len() {
            earlier.push(text.subrange(k, close))
        } else {
            earlier
        }
    }
}

/// The names of the files that `text` may include, in the order of the
/// text: what stands between the quotes wherever the word `include`, one
/// or more blanks and a quote are followed by a closing quote. The compiler
/// asks for no other name while it reads `text`; it asks for fewer where
/// such a place lies in a comment or a string.
pub open spec fn include_names(text: Seq<char>) -> Seq<Seq<char>> {
    include_names_before(text, text.len() as int)
}

/// The texts of some strings, in their order.
pub open spec fn texts_of(strings: Seq<String>) -> Seq<Seq<char>> {
    Seq::new(strings.len(), |k: int| strings[k]@)
}

/// Rule text that the engine takes.
///
/// The text is read from left to right as the compiler's lexer reads it,
/// and every character must be allowed where it stands:
/// - in a comment, `//` to the end of its line or `/*` to the first `*/`
///   behind its slash, any character but NUL;
/// - in the string of a pattern, `$identifier = "..."`, any character but
///   NUL;
/// - in the string of a metadata entry, `identifier = "..."`, the same
///   short of an escape `\x` followed by a digit of eight or more;
/// - in a regular expression, ASCII other than NUL;
/// - anywhere else, and so in every other string: ASCII other than NUL, and
///   no escape `\x` followed by a digit of eight or more.
/// The identifier, the `=` and the opening quote stand on one line, with
/// blanks at most between them. No name of an include is left open at the
/// end of its line.
///
/// Why: the compiler copies pieces of the text into its messages through
/// buffers of a fixed size, and the engine reads the messages, and the
/// identifiers and metadata strings of the rules, as UTF-8. A string with
/// the byte of an escape, or a character cut in two by the end of a buffer,
/// is none. The pieces that reach a message are the name of an include and
/// the strings that are neither a pattern nor the value of a metadata
/// entry; a metadata string is stored whole and read back with the matches.
/// What the lexer skips as a comment reaches nothing, a pattern is stored
/// as bytes, and a regular expression is reported by fixed messages only.
/// A hex string holds hexadecimal digits, wildcards, jumps and comments,
/// and its comments open and close as they do outside of it.
/// A string that follows `identifier =` is read only as the value of a
/// metadata entry, and one that follows `$identifier =` only as a pattern:
/// in every other place the parser fails at the `=` and drops the string.
///
/// The reading is not the compiler, and it refuses text that the compiler
/// would take:
/// - It does not follow the grammar. A string in a condition or behind
///   `import` is held to ASCII without an escape of a high byte, although
///   only some of these strings can reach a message.
/// - It may not know that the lexer is inside a comment: a file that was
///   included may have ended in one. So a `*/` that closes no comment of the
///   reading, the name of an include, and a `//` or a quote with a `*/`
///   further on in the line make the rest of the line code, and an
///   identifier with a `*/` further on in the line opens no metadata entry
///   and no pattern. Strings and regular expressions end with their line at
///   the latest, so the next line is read afresh.
/// - The identifier, the `=` and the quote on more than one line are not
///   taken for a metadata entry or a pattern.
pub open spec fn plain_rule_text(text: Seq<char>) -> bool {
    plain_from(text, 0, Place::Clear) && includes_close(text)
}

/// Rule text that loads with the files `includes` to include from: plain
/// text that the compiler accepts.
pub open spec fn rule_text_loads(
    text: Seq<char>,
    includes: Seq<(Option<Seq<char>>, Seq<char>, Seq<char>)>,
) -> bool {
    plain_rule_text(text) && rule_text_compiles(text, includes)
}

/// A rule file by the name that an `include` calls it.
#[derive(Debug, Clone, PartialEq, Eq)]
pub struct IncludeFile {
    /// The file that holds the `include`, by the name under which it was
    /// included itself; `None` for the text of the candidate.
    pub from: Option<String>,
    /// The name, as it stands between the quotes of the `include`.
    pub name: String,
    /// The text of the file.
    pub text: String,
}

/// The name of an including file as a sequence of characters.
pub open spec fn origin_of(from: Option<String>) -> Option<Seq<char>> {
    match from {
        Some(name) => Some(name@),
        None => None,
    }
}

/// A candidate rule file: its text, and the files that it may include.
#[derive(Debug, Clone, PartialEq, Eq)]
pub struct RuleSource {
    /// The rule text.
    pub text: String,
    /// The files that an `include` in the text, or in one of these files,
    /// is resolved from, each for the file that includes it. A file whose
    /// text is not plain is passed over.
    pub includes: Vec<IncludeFile>,
}

impl RuleSource {
    /// A rule text that includes nothing.
    pub fn new(text: String) -> (source: Self)
        ensures
            source.text == text,
            source.includes@.len() == 0,
    {
        RuleSource { text, includes: Vec::new() }
    }
}

/// The including files, names and texts of `files`, in their order.
pub open spec fn include_table(files: Seq<IncludeFile>) -> Seq<(Option<Seq<char>>, Seq<char>, Seq<char>)> {
    Seq::new(files.len(), |i: int| (origin_of(files[i].from), files[i].name@, files[i].text@))
}

/// Every text of the table is plain.
pub open spec fn table_is_plain(table: Seq<(Option<Seq<char>>, Seq<char>, Seq<char>)>) -> bool {
    forall|i: int| 0 <= i < table.len() ==> plain_rule_text((#[trigger] table[i]).2)
}

/// The files among `files` whose text is plain, in their order.
pub open spec fn plain_files(files: Seq<IncludeFile>) -> Seq<IncludeFile>
    decreases files.len(),
{
    if files.len() == 0 {
        Seq::empty()
    } else {
        let earlier = plain_files(files.drop_last());
        if plain_rule_text(files.last().text@) {
            earlier.push(files.last())
        } else {
            earlier
        }
    }
}

/// What an `include` of `name` in the file `from` resolves to: the text of
/// the first file of the table that has this name for that file.
pub open spec fn resolved(
    table: Seq<(Option<Seq<char>>, Seq<char>, Seq<char>)>,
    from: Option<Seq<char>>,
    name: Seq<char>,
) -> Option<Seq<char>>
    decreases table.len(),
{
    if table.len() == 0 {
        None
    } else if table.first().0 == from && table.first().1 == name {
        Some(table.first().2)
    } else {
        resolved(table.drop_first(), from, name)
    }
}

/// A candidate rule file loads: its text is plain and the compiler accepts
/// it, with the plain ones among its files to include from.
pub open spec fn source_loads(source: RuleSource) -> bool {
    rule_text_loads(source.text@, include_table(plain_files(source.includes@)))
}

/// The plain ones among some files make a plain table.
pub proof fn lemma_plain_files_are_plain(files: Seq<IncludeFile>)
    ensures
        table_is_plain(include_table(plain_files(files))),
    decreases files.len(),
{
    if files.len() > 0 {
        lemma_plain_files_are_plain(files.drop_last());
        let earlier = plain_files(files.drop_last());
        if plain_rule_text(files.last().text@) {
            let all = earlier.push(files.last());
            assert forall|i: int| 0 <= i < include_table(all).len() implies plain_rule_text(
                (#[trigger] include_table(all)[i]).2,
            ) by {
                if i < earlier.len() {
                    assert(include_table(all)[i] == include_table(earlier)[i]);
                }
            }
        }
    }
}

/// The name of an including file as a sequence of characters.
pub open spec fn origin_named(from: Option<&str>) -> Option<Seq<char>> {
    match from {
        Some(name) => Some(name@),
        None => None,
    }
}

/// Whether two files are the same including file.
fn same_origin(first: &Option<String>, second: &Option<String>) -> (same: bool)
    ensures
        same == (origin_of(*first) == origin_of(*second)),
{
    match (first, second) {
        (Some(a), Some(b)) => *a == *b,
        (None, None) => true,
        _ => false,
    }
}

/// Resolve an `include` of `name` that stands in the file `from`, `None`
/// for the text of the candidate, from `files`: the text of the first file
/// with this name for that file.
pub fn find_include(files: &[IncludeFile], name: &str, from: Option<&str>) -> (text: Option<
    String,
>)
    ensures
        match resolved(include_table(files@), origin_named(from), name@) {
            Some(found) => text matches Some(t) && t@ == found,
            None => text is None,
        },
{
    let wanted = name.to_owned();
    let origin: Option<String> = match from {
        Some(file) => Some(file.to_owned()),
        None => None,
    };
    let ghost holder = origin_named(from);
    assert(holder == origin_of(origin));
    let n = files.len();
    let mut i: usize = 0;
    let ghost table = include_table(files@);
    assert(table.skip(0) =~= table);
    while i < n
        invariant
            n == files@.len(),
            i <= n,
            wanted@ == name@,
            holder == origin_of(origin),
            holder == origin_named(from),
            table == include_table(files@),
            resolved(table, holder, name@) == resolved(table.skip(i as int), holder, name@),
        decreases n - i,
    {
        proof {
            let rest = table.skip(i as int);
            assert(rest.first() == table[i as int]);
            assert(rest.drop_first() =~= table.skip(i + 1));
        }
        if same_origin(&files[i].from, &origin) && files[i].name == wanted {
            let found = files[i].text.clone();
            proof {
                let entry = table[i as int];
                assert(entry.0 == holder && entry.1 == name@ && entry.2 == found@);
                assert(resolved(table.skip(i as int), holder, name@) == Some(entry.2));
            }
            return Some(found);
        }
        i += 1;
    }
    None
}

/// The files among `files` whose text is plain.
pub fn plain_includes(files: &[IncludeFile]) -> (plain: Vec<IncludeFile>)
    ensures
        plain@ == plain_files(files@),
        table_is_plain(include_table(plain@)),
{
    let mut plain: Vec<IncludeFile> = Vec::new();
    let n = files.len();
    let mut i: usize = 0;
    assert(files@.take(0) =~= Seq::<IncludeFile>::empty());
    while i < n
        invariant
            n == files@.len(),
            i <= n,
            plain@ == plain_files(files@.take(i as int)),
        decreases n - i,
    {
        assert(files@.take(i + 1).drop_last() =~= files@.take(i as int));
        if is_plain_rule_text(files[i].text.as_str()) {
            plain.push(
                IncludeFile {
                    from: files[i].from.clone(),
                    name: files[i].name.clone(),
                    text: files[i].text.clone(),
                },
            );
        }
        i += 1;
    }
    assert(files@.take(n as int) =~= files@);
    proof {
        lemma_plain_files_are_plain(files@);
    }
    plain
}

fn char_is_high_hex_digit(c: char) -> (b: bool)
    ensures
        b == is_high_hex_digit(c),
{
    let u: u32 = c as u32;
    (0x38 <= u && u <= 0x39) || (0x61 <= u && u <= 0x66) || (0x41 <= u && u <= 0x46)
}

fn check_high_escape(text: &[char], i: usize) -> (b: bool)
    requires
        i < text@.len(),
    ensures
        b == high_escape_at(text@, i as int),
{
    text.len() - i > 2 && text[i] == '\\' && text[i + 1] == 'x' && char_is_high_hex_digit(
        text[i + 2],
    )
}

fn check_strict(text: &[char], i: usize) -> (b: bool)
    requires
        i < text@.len(),
    ensures
        b == strict_at(text@, i as int),
{
    let u: u32 = text[i] as u32;
    0 < u && u <= 0x7f && !check_high_escape(text, i)
}

fn char_is_name_start(c: char) -> (b: bool)
    ensures
        b == is_name_start(c),
{
    let u: u32 = c as u32;
    (0x41 <= u && u <= 0x5a) || (0x61 <= u && u <= 0x7a) || u == 0x5f
}

fn char_is_name_char(c: char) -> (b: bool)
    ensures
        b == is_name_char(c),
{
    let u: u32 = c as u32;
    char_is_name_start(c) || (0x30 <= u && u <= 0x39)
}

fn within(c: char, closed: bool, escape: Place, inside: Place) -> (place: Place)
    ensures
        place == place_within(c, closed, escape, inside),
{
    if c == '\n' || closed {
        Place::Clear
    } else if c == '\\' {
        escape
    } else {
        inside
    }
}

fn check_closes_on_line(text: &[char], from: usize) -> (b: bool)
    requires
        from <= text@.len(),
    ensures
        b == closes_on_line(text@, from as int),
{
    let n = text.len();
    let mut i = from;
    while i < n
        invariant
            n == text@.len(),
            from <= i <= n,
            closes_on_line(text@, from as int) == closes_on_line(text@, i as int),
        decreases n - i,
    {
        if n - i < 2 || text[i] == '\n' {
            return false;
        }
        if text[i] == '*' && text[i + 1] == '/' {
            return true;
        }
        i += 1;
    }
    false
}

fn check_quote_on_line(text: &[char], from: usize) -> (b: bool)
    requires
        from <= text@.len(),
    ensures
        b == quote_on_line(text@, from as int),
{
    let n = text.len();
    let mut i = from;
    while i < n
        invariant
            n == text@.len(),
            from <= i <= n,
            quote_on_line(text@, from as int) == quote_on_line(text@, i as int),
        decreases n - i,
    {
        if text[i] == '\n' {
            return false;
        }
        if text[i] == '"' {
            return true;
        }
        i += 1;
    }
    false
}

fn find_blanks_start(text: &[char], k: usize) -> (m: usize)
    requires
        k <= text@.len(),
    ensures
        m == blanks_start(text@, k as int),
        m <= k,
{
    let mut m = k;
    while m > 0 && (text[m - 1] == ' ' || text[m - 1] == '\t')
        invariant
            m <= k <= text@.len(),
            blanks_start(text@, k as int) == blanks_start(text@, m as int),
        decreases m,
    {
        m -= 1;
    }
    m
}

fn check_may_open_include(text: &[char], q: usize) -> (b: bool)
    requires
        q < text@.len(),
    ensures
        b == may_open_include(text@, q as int),
{
    if text[q] != '"' {
        return false;
    }
    let m = find_blanks_start(text, q);
    if m >= q || m < 7 {
        return false;
    }
    let word = text[m - 7] == 'i' && text[m - 6] == 'n' && text[m - 5] == 'c' && text[m - 4] == 'l'
        && text[m - 3] == 'u' && text[m - 2] == 'd' && text[m - 1] == 'e';
    proof {
        let found = text@.subrange(m - 7, m as int);
        if word {
            assert(found =~= include_word());
        } else {
            assert(found[0] == text@[m - 7] && found[1] == text@[m - 6] && found[2] == text@[m
                - 5] && found[3] == text@[m - 4] && found[4] == text@[m - 3] && found[5]
                == text@[m - 2] && found[6] == text@[m - 1]);
            assert(include_word()[0] == 'i' && include_word()[6] == 'e');
        }
    }
    word
}

fn check_includes_close(text: &[char]) -> (b: bool)
    ensures
        b == includes_close(text@),
{
    let n = text.len();
    let mut q: usize = 0;
    while q < n
        invariant
            n == text@.len(),
            q <= n,
            forall|p: int|
                0 <= p < q && #[trigger] may_open_include(text@, p) ==> quote_on_line(
                    text@,
                    p + 1,
                ),
        decreases n - q,
    {
        if check_may_open_include(text, q) && !check_quote_on_line(text, q + 1) {
            return false;
        }
        q += 1;
    }
    true
}

fn find_next_quote(text: &[char], from: usize) -> (at: usize)
    requires
        from <= text@.len(),
    ensures
        at == next_quote(text@, from as int),
        from <= at <= text@.len(),
{
    let n = text.len();
    let mut i = from;
    while i < n && text[i] != '"'
        invariant
            n == text@.len(),
            from <= i <= n,
            next_quote(text@, from as int) == next_quote(text@, i as int),
        decreases n - i,
    {
        i += 1;
    }
    i
}

/// The names of the files that rule text may include, for whoever gathers
/// the files of a candidate: see `include_names`.
pub fn included_names(source: &str) -> (names: Vec<String>)
    ensures
        texts_of(names@) == include_names(source@),
{
    let chars = chars_of(source);
    let text = chars.as_slice();
    let n = text.len();
    let mut names: Vec<String> = Vec::new();
    let mut q: usize = 0;
    while q < n
        invariant
            n == text@.len(),
            text@ == source@,
            q <= n,
            texts_of(names@) =~= include_names_before(text@, q as int),
        decreases n - q,
    {
        if check_may_open_include(text, q) {
            let close = find_next_quote(text, q + 1);
            if close < n {
                names.push(source.substring_char(q + 1, close).to_owned());
            }
        }
        q += 1;
    }
    names
}

fn step_between(text: &[char], i: usize) -> (place: Place)
    requires
        i < text@.len(),
    ensures
        place == place_between(text@, i as int),
{
    let c = text[i];
    let second = text.len() - i > 1;
    if c == '/' {
        if i > 0 && text[i - 1] == '*' {
            Place::Code
        } else if second && text[i + 1] == '*' {
            Place::Block
        } else if second && text[i + 1] == '/' {
            if check_closes_on_line(text, i) {
                Place::Code
            } else {
                Place::LineComment
            }
        } else {
            Place::Regex
        }
    } else if c == '"' {
        if check_may_open_include(text, i) || check_closes_on_line(text, i) {
            Place::Code
        } else {
            Place::Text
        }
    } else if char_is_name_start(c) && !check_closes_on_line(text, i) {
        Place::MetaName
    } else if c == '$' && !check_closes_on_line(text, i) {
        Place::PatternName
    } else {
        Place::Clear
    }
}

fn step_in_name(text: &[char], i: usize, name: Place, equals: Place, value: Place) -> (place:
    Place)
    requires
        i < text@.len(),
    ensures
        place == place_in_name(text@, i as int, name, equals, value),
{
    let c = text[i];
    if char_is_name_char(c) {
        name
    } else if c == '=' {
        value
    } else if c == ' ' || c == '\t' {
        equals
    } else {
        step_between(text, i)
    }
}

fn step_before(text: &[char], i: usize, wanted: char, waiting: Place, found: Place) -> (place:
    Place)
    requires
        i < text@.len(),
    ensures
        place == place_before(text@, i as int, wanted, waiting, found),
{
    let c = text[i];
    if c == wanted {
        found
    } else if c == ' ' || c == '\t' {
        waiting
    } else {
        step_between(text, i)
    }
}

fn check_allowed(text: &[char], i: usize, place: Place) -> (allowed: bool)
    requires
        i < text@.len(),
    ensures
        allowed == allowed_at(text@, i as int, place),
{
    let u: u32 = text[i] as u32;
    match place {
        Place::LineComment | Place::Block | Place::BlockStar | Place::PatternString
        | Place::PatternEscape => u != 0,
        Place::MetaString | Place::MetaEscape => u != 0 && !check_high_escape(text, i),
        Place::Regex | Place::RegexEscape => 0 < u && u <= 0x7f,
        _ => check_strict(text, i),
    }
}

fn step_place(text: &[char], i: usize, place: Place) -> (next: Place)
    requires
        i < text@.len(),
    ensures
        next == place_after(text@, i as int, place),
{
    let c = text[i];
    match place {
        Place::Clear => step_between(text, i),
        Place::Code => if c == '\n' {
            Place::Clear
        } else {
            Place::Code
        },
        Place::LineComment => if c == '\n' {
            Place::Clear
        } else {
            Place::LineComment
        },
        Place::Block => if c == '*' {
            Place::BlockStar
        } else {
            Place::Block
        },
        Place::BlockStar => if c == '/' {
            Place::Clear
        } else if c == '*' {
            Place::BlockStar
        } else {
            Place::Block
        },
        Place::MetaName => step_in_name(
            text,
            i,
            Place::MetaName,
            Place::MetaEquals,
            Place::MetaValue,
        ),
        Place::MetaEquals => step_before(text, i, '=', Place::MetaEquals, Place::MetaValue),
        Place::MetaValue => step_before(text, i, '"', Place::MetaValue, Place::MetaString),
        Place::MetaString => within(c, c == '"', Place::MetaEscape, Place::MetaString),
        Place::MetaEscape => within(c, false, Place::MetaString, Place::MetaString),
        Place::PatternName => step_in_name(
            text,
            i,
            Place::PatternName,
            Place::PatternEquals,
            Place::PatternValue,
        ),
        Place::PatternEquals => step_before(
            text,
            i,
            '=',
            Place::PatternEquals,
            Place::PatternValue,
        ),
        Place::PatternValue => step_before(
            text,
            i,
            '"',
            Place::PatternValue,
            Place::PatternString,
        ),
        Place::PatternString => within(c, c == '"', Place::PatternEscape, Place::PatternString),
        Place::PatternEscape => within(c, false, Place::PatternString, Place::PatternString),
        Place::Text => within(c, c == '"', Place::TextEscape, Place::Text),
        Place::TextEscape => within(c, false, Place::Text, Place::Text),
        Place::Regex => within(c, c == '/', Place::RegexEscape, Place::Regex),
        Place::RegexEscape => within(c, false, Place::Regex, Place::Regex),
    }
}

/// Whether rule text is plain enough for the engine.
pub fn is_plain_rule_text(source: &str) -> (plain: bool)
    ensures
        plain == plain_rule_text(source@),
{
    let chars = chars_of(source);
    let text = chars.as_slice();
    let n = text.len();
    let mut place = Place::Clear;
    let mut i: usize = 0;
    while i < n
        invariant
            n == text@.len(),
            text@ == source@,
            i <= n,
            plain_from(text@, 0, Place::Clear) == plain_from(text@, i as int, place),
        decreases n - i,
    {
        if !check_allowed(text, i, place) {
            return false;
        }
        place = step_place(text, i, place);
        i += 1;
    }
    check_includes_close(text)
}

/// `yara::Compiler::new`, followed by `set_include_callback` on the new
/// compiler: a compiler without text that resolves an `include` from
/// `files` through `find_include`, by its name and the file that holds it,
/// and reads no file itself, or the library's error as text. The call fails where the machine has no memory or thread
/// storage left for the compiler; nothing says when.
#[verifier::external_body]
fn new_compiler(files: &[IncludeFile]) -> (r: Result<yara::Compiler, String>)
    requires
        table_is_plain(include_table(files@)),
    ensures
        r matches Ok(compiler) ==> compiler_source(compiler) == Seq::<char>::empty()
            && compiler_includes(compiler) == include_table(files@),
{
    let table = files.to_vec();
    match yara::Compiler::new() {
        Ok(mut compiler) => {
            compiler.set_include_callback(move |name, from, _| find_include(&table, name, from));
            Ok(compiler)
        },
        Err(e) => Err(format!("{e:?}")),
    }
}

/// `yara::Compiler::add_rules_str`: the compiler with `source` added, or the
/// compile errors as text. On a compiler without text the call succeeds
/// exactly when the lexer and parser accept `source` with the files the
/// compiler includes from. The call panics on a NUL in `source` and on a
/// compiler message that is not UTF-8; plain text whose included files are
/// plain gives neither.
#[verifier::external_body]
fn add_rules_str(compiler: yara::Compiler, source: &str) -> (r: Result<yara::Compiler, String>)
    requires
        plain_rule_text(source@),
        table_is_plain(compiler_includes(compiler)),
    ensures
        r matches Ok(extended) ==> compiler_source(extended) == compiler_source(compiler)
            + source@ && compiler_includes(extended) == compiler_includes(compiler),
        compiler_source(compiler).len() == 0 ==> (r is Ok <==> rule_text_compiles(
            source@,
            compiler_includes(compiler),
        )),
{
    compiler.add_rules_str(source).map_err(|e| format!("{e:?}"))
}

/// `yara::Compiler::compile_rules`: the corpus of the text that was added to
/// the compiler, or the library's error as text. The call fails where the
/// machine has no memory left for the corpus; nothing says when.
#[verifier::external_body]
fn compile_rules(compiler: yara::Compiler) -> (r: Result<yara::Rules, String>)
    ensures
        r matches Ok(rules) ==> rules_source(rules) == compiler_source(compiler)
            && rules_includes(rules) == compiler_includes(compiler),
{
    compiler.compile_rules().map_err(|e| format!("{e:?}"))
}

/// `yara::Rules::scan_mem`: the rules that match `data`, each with its
/// identifier, namespace and metadata, or why the scan failed: out of time,
/// or anything else as text. The matches are rules of the corpus, in the
/// order of the corpus, no rule twice: the scan goes through the rules of
/// the corpus once and reports those that match. Which of them match is not
/// stated.
///
/// The call panics on a rule whose identifiers or metadata strings are not
/// UTF-8; a corpus compiled from plain text and plain included files holds
/// none.
#[verifier::external_body]
fn scan_mem(rules: &yara::Rules, data: &[u8], timeout: i32) -> (r: Result<
    Vec<SignatureMatch>,
    ScanError,
>)
    requires
        plain_rule_text(rules_source(*rules)),
        table_is_plain(rules_includes(*rules)),
    ensures
        r matches Ok(found) ==> is_selection_of(match_names(found@), corpus_rules(*rules)),
        r matches Err(e) ==> e is Timeout || e is Engine,
{
    match rules.scan_mem(data, timeout) {
        Ok(found) => Ok(found.into_iter().map(|rule| SignatureMatch {
            rule: rule.identifier.to_string(),
            namespace: rule.namespace.to_string(),
            metadata: rule.metadatas.into_iter().map(|m| (m.identifier.to_string(), match m.value {
                yara::MetadataValue::Integer(i) => MetadataValue::Integer(i),
                yara::MetadataValue::String(s) => MetadataValue::Text(s.to_string()),
                yara::MetadataValue::Boolean(b) => MetadataValue::Boolean(b),
            })).collect(),
        }).collect()),
        Err(e) if e.kind == yara::errors::YaraErrorKind::ScanTimeout => Err(ScanError::Timeout),
        Err(e) => Err(ScanError::Engine(format!("{e:?}"))),
    }
}

/// The rule engine: a compiled corpus, once rules have been loaded.
pub struct YaraEngine {
    rules: Option<yara::Rules>,
}

impl YaraEngine {
    #[verifier::type_invariant]
    spec fn corpus_is_plain(self) -> bool {
        self.rules matches Some(rules) ==> plain_rule_text(rules_source(rules))
            && table_is_plain(rules_includes(rules))
    }

    /// Whether a corpus has been loaded.
    pub closed spec fn is_loaded(&self) -> bool {
        self.rules is Some
    }

    /// The rule text of the loaded corpus.
    pub closed spec fn source(&self) -> Seq<char>
        recommends
            self.is_loaded(),
    {
        rules_source(self.rules->0)
    }

    /// The files that the loaded corpus could include from.
    pub closed spec fn includes(&self) -> Seq<(Option<Seq<char>>, Seq<char>, Seq<char>)>
        recommends
            self.is_loaded(),
    {
        rules_includes(self.rules->0)
    }

    /// The rules of the loaded corpus, in its order, each by its namespace
    /// and its identifier. An engine without a corpus holds no rule.
    pub closed spec fn corpus(&self) -> Seq<(Seq<char>, Seq<char>)> {
        match self.rules {
            Some(rules) => corpus_rules(rules),
            None => Seq::empty(),
        }
    }

    /// The engine holds the corpus of `text` with `includes` to include from.
    pub open spec fn holds(
        &self,
        text: Seq<char>,
        includes: Seq<(Option<Seq<char>>, Seq<char>, Seq<char>)>,
    ) -> bool {
        self.is_loaded() && self.source() == text && self.includes() == includes
    }

    /// An engine without rules.
    pub fn new() -> (engine: Self)
        ensures
            !engine.is_loaded(),
    {
        Self { rules: None }
    }

    /// Whether a corpus has been loaded.
    pub fn has_rules(&self) -> (loaded: bool)
        ensures
            loaded == self.is_loaded(),
    {
        self.rules.is_some()
    }

    /// Compile `text`, with the plain files among `files` to include from,
    /// and make it the engine's corpus.
    fn load(&mut self, text: &str, files: &[IncludeFile]) -> (r: Result<(), ScanError>)
        ensures
            r is Ok ==> rule_text_loads(text@, include_table(plain_files(files@))),
            r is Ok ==> final(self).holds(text@, include_table(plain_files(files@))),
            r is Err ==> *final(self) == *old(self),
            !rule_text_loads(text@, include_table(plain_files(files@))) ==> r is Err,
            !plain_rule_text(text@) ==> r matches Err(ScanError::RuleCompilation(_)),
            r matches Err(e) ==> (e is RuleCompilation && !rule_text_loads(
                text@,
                include_table(plain_files(files@)),
            )) || (e is CorpusUnavailable && plain_rule_text(text@)),
    {
        if !is_plain_rule_text(text) {
            return Err(ScanError::RuleCompilation("rule text is not plain".to_owned()));
        }
        let plain = plain_includes(files);
        let compiler = match new_compiler(plain.as_slice()) {
            Ok(compiler) => compiler,
            Err(detail) => {
                return Err(ScanError::CorpusUnavailable(detail));
            },
        };
        let compiler = match add_rules_str(compiler, text) {
            Ok(compiler) => compiler,
            Err(detail) => {
                return Err(ScanError::RuleCompilation(detail));
            },
        };
        match compile_rules(compiler) {
            Ok(rules) => {
                assert(rules_source(rules) =~= text@);
                self.rules = Some(rules);
                Ok(())
            },
            Err(detail) => Err(ScanError::CorpusUnavailable(detail)),
        }
    }

    /// Compile `source` and make it the engine's corpus. The text includes
    /// nothing: an `include` in it is refused by the compiler.
    ///
    /// The engine takes text that loads: plain text that the compiler
    /// accepts. Any other text is refused with `RuleCompilation`. Text that
    /// loads becomes the corpus unless the machine could not give the
    /// compiler what it needs, which is `CorpusUnavailable`. On any failure
    /// the engine keeps what it had.
    ///
    /// Plain text is narrower than what the compiler accepts. A rule file
    /// with a character beyond ASCII, or an escape `\x` of a byte of 0x80 or
    /// more, in a string other than a pattern or a metadata value, say in a
    /// condition, is refused here although the compiler would take it; so
    /// is one that puts such a character behind a stray `*/` or behind an
    /// include on its line. `plain_rule_text` lists what is refused and why:
    /// such text can make the engine panic on a compiler message.
    pub fn load_rules(&mut self, source: &str) -> (r: Result<(), ScanError>)
        ensures
            r is Ok ==> rule_text_loads(source@, Seq::empty()) && final(self).holds(
                source@,
                Seq::empty(),
            ),
            r is Err ==> *final(self) == *old(self),
            !rule_text_loads(source@, Seq::empty()) ==> r is Err,
            !plain_rule_text(source@) ==> r matches Err(ScanError::RuleCompilation(_)),
            r matches Err(e) ==> (e is RuleCompilation && !rule_text_loads(source@, Seq::empty()))
                || (e is CorpusUnavailable && plain_rule_text(source@)),
    {
        let none: Vec<IncludeFile> = Vec::new();
        assert(include_table(plain_files(none@)) =~= Seq::empty());
        self.load(source, none.as_slice())
    }

    /// Compile a candidate rule file and make it the engine's corpus. An
    /// `include` is resolved from the plain ones among the candidate's
    /// files, by name, and from nowhere else.
    ///
    /// As `load_rules`: a candidate that does not load is refused with
    /// `RuleCompilation`, one that loads becomes the corpus unless the
    /// compiler is unavailable, and on any failure the engine keeps what it
    /// had.
    pub fn load_source(&mut self, source: &RuleSource) -> (r: Result<(), ScanError>)
        ensures
            r is Ok ==> source_loads(*source) && final(self).holds(
                source.text@,
                include_table(plain_files(source.includes@)),
            ),
            r is Err ==> *final(self) == *old(self),
            !source_loads(*source) ==> r is Err,
            !plain_rule_text(source.text@) ==> r matches Err(ScanError::RuleCompilation(_)),
            r matches Err(e) ==> (e is RuleCompilation && !source_loads(*source)) || (e
                is CorpusUnavailable && plain_rule_text(source.text@)),
    {
        self.load(source.text.as_str(), source.includes.as_slice())
    }

    /// Scan `data` with the loaded corpus.
    ///
    /// Without a corpus the scan fails with `RulesNotLoaded`. With one, the
    /// matches are rules of the corpus, in its order and none twice; which
    /// of them is the corpus scan's word, and it may also run out of time or
    /// fail.
    pub fn scan(&self, data: &[u8]) -> (r: Result<Vec<SignatureMatch>, ScanError>)
        ensures
            !self.is_loaded() ==> r == Err::<Vec<SignatureMatch>, ScanError>(
                ScanError::RulesNotLoaded,
            ),
            self.is_loaded() ==> (r matches Err(e) ==> e is Timeout || e is Engine),
            r matches Ok(found) ==> is_selection_of(match_names(found@), self.corpus()),
    {
        proof {
            use_type_invariant(self);
        }
        match &self.rules {
            None => Err(ScanError::RulesNotLoaded),
            Some(rules) => scan_mem(rules, data, SCAN_TIMEOUT_SECS),
        }
    }
}

impl Default for YaraEngine {
    fn default() -> (engine: Self)
        ensures
            !engine.is_loaded(),
    {
        Self::new()
    }
}

/// Whether a candidate rule file loads: it was found, its text is plain,
/// and the compiler accepts it.
pub open spec fn candidate_loads(source: Option<RuleSource>) -> bool {
    source matches Some(found) && source_loads(found)
}

/// No candidate among `sources` loads.
pub open spec fn none_loads(sources: Seq<Option<RuleSource>>) -> bool {
    forall|i: int| 0 <= i < sources.len() ==> !candidate_loads(#[trigger] sources[i])
}

/// `engine` holds the corpus of candidate `i` of `sources`, which loads.
pub open spec fn holds_candidate(engine: YaraEngine, sources: Seq<Option<RuleSource>>, i: int) -> bool {
    &&& 0 <= i < sources.len()
    &&& candidate_loads(sources[i])
    &&& engine.holds(sources[i]->0.text@, include_table(plain_files(sources[i]->0.includes@)))
}

/// `engine` is an engine for `sources`: it holds the corpus of a candidate
/// that loads, or no corpus. Where no candidate loads it holds none.
///
/// The candidates are tried in their order, so the one whose corpus the
/// engine holds is the first that loads and that the compiler could be had
/// for. When the compiler cannot be had is not stated: a candidate that
/// loads may have been passed over.
pub open spec fn is_engine_for(engine: YaraEngine, sources: Seq<Option<RuleSource>>) -> bool {
    engine.is_loaded() ==> exists|i: int| #[trigger] holds_candidate(engine, sources, i)
}

/// An engine for candidates of which none loads holds no corpus.
pub proof fn lemma_no_corpus_where_none_loads(engine: YaraEngine, sources: Seq<Option<RuleSource>>)
    requires
        is_engine_for(engine, sources),
        none_loads(sources),
    ensures
        !engine.is_loaded(),
{
    if engine.is_loaded() {
        let i = choose|i: int| #[trigger] holds_candidate(engine, sources, i);
        assert(candidate_loads(sources[i]));
    }
}

impl YaraEngine {
    /// The engine for the first rule source that can be loaded.
    ///
    /// `sources` holds each candidate rule file in the order of preference,
    /// `None` where the file is absent. The candidates are tried in that
    /// order, each with `load_source`, and the first that loads becomes the
    /// corpus. A candidate that fails to load is passed over, whatever the
    /// failure: text that is refused, and a compiler that could not be had.
    /// Where every candidate was passed over the engine has no rules.
    pub fn from_sources(sources: &[Option<RuleSource>]) -> (engine: Self)
        ensures
            is_engine_for(engine, sources@),
            none_loads(sources@) ==> !engine.is_loaded(),
    {
        let mut engine = YaraEngine::new();
        let n = sources.len();
        let mut i: usize = 0;
        while i < n
            invariant
                n == sources@.len(),
                i <= n,
                !engine.is_loaded(),
            decreases n - i,
        {
            match &sources[i] {
                Some(source) => {
                    match engine.load_source(source) {
                        Ok(()) => {
                            assert(holds_candidate(engine, sources@, i as int));
                            return engine;
                        },
                        Err(_) => {},
                    }
                },
                None => {},
            }
            i += 1;
        }
        engine
    }

    /// The rules that match `data`: rules of the engine's corpus, in the
    /// order of the corpus, no rule twice. An engine without rules matches
    /// nothing: detection degrades, the scan does not fail.
    pub fn matches(&self, data: &[u8]) -> (r: Result<Vec<SignatureMatch>, ScanError>)
        ensures
            !self.is_loaded() ==> (r matches Ok(found) && found@.len() == 0),
            r matches Ok(found) ==> is_selection_of(match_names(found@), self.corpus())
                && found@.len() <= self.corpus().len(),
            r matches Err(e) ==> self.is_loaded() && (e is Timeout || e is Engine),
    {
        if self.has_rules() {
            let r = self.scan(data);
            proof {
                if let Ok(found) = &r {
                    lemma_selection_is_no_longer(match_names(found@), self.corpus());
                }
            }
            r
        } else {
            let found: Vec<SignatureMatch> = Vec::new();
            proof {
                assert(match_names(found@) =~= Seq::empty());
                lemma_nothing_is_a_selection(self.corpus());
            }
            Ok(found)
        }
    }
}

/// What matching a sample against `sources` may give: the matches are rules
/// of the corpus of an engine for `sources`, in the order of that corpus,
/// and none where no candidate loads. The only failure is the corpus
/// scan's, which ran out of time or broke on the corpus of a candidate that
/// loads.
pub open spec fn is_evaluation_of(
    r: Result<Vec<SignatureMatch>, ScanError>,
    sources: Seq<Option<RuleSource>>,
) -> bool {
    match r {
        Ok(found) => {
            &&& none_loads(sources) ==> found@.len() == 0
            &&& exists|engine: YaraEngine|
                #[trigger] is_engine_for(engine, sources) && is_selection_of(
                    match_names(found@),
                    engine.corpus(),
                )
        },
        Err(ScanError::Timeout) => !none_loads(sources),
        Err(ScanError::Engine(_)) => !none_loads(sources),
        Err(_) => false,
    }
}

/// Match a sample against the first rule source that can be loaded; see
/// `YaraEngine::from_sources` and `YaraEngine::matches`. Where no candidate
/// loads, the sample matches nothing: detection degrades, the scan does not
/// fail.
pub fn evaluate_signatures(data: &[u8], sources: &[Option<RuleSource>]) -> (r: Result<
    Vec<SignatureMatch>,
    ScanError,
>)
    ensures
        is_evaluation_of(r, sources@),
        none_loads(sources@) ==> (r matches Ok(found) && found@.len() == 0),
{
    let engine = YaraEngine::from_sources(sources);
    engine.matches(data)
}

/// The report that the pipeline's entropy stage gives for `data`: the
/// analysis where the analysis is enabled, the empty report where it is not.
pub open spec fn entropy_stage_result(enabled: bool, data: Seq<u8>, report: EntropyReport) -> bool {
    if enabled {
        report.is_analysis_of(data)
    } else {
        report.is_empty()
    }
}

/// What holds of the outcome of a scan of `sample` under `config`: it is
/// fused from its rule matches and its entropy report, and the report is
/// what the entropy stage gives for the sample.
pub open spec fn outcome_of_scan(
    config: ScannerConfig,
    ctx: ScanContext,
    sample: Seq<u8>,
    outcome: ScanOutcome,
) -> bool {
    &&& outcome == fused_outcome(config, ctx, outcome.signatures, outcome.entropy)
    &&& entropy_stage_result(config.enable_entropy_analysis, sample, outcome.entropy)
    &&& regions_well_formed(outcome.entropy.suspicious_regions@, sample.len())
    &&& (outcome.signatures@.len() > 0 ==> outcome.recommended_action
        == crate::RecommendedAction::Quarantine)
}

/// Scan one sample with a rule engine: validate the configuration, match the
/// sample against the engine's corpus, analyse its entropy if that is
/// enabled, and fuse the findings into the outcome.
///
/// The scan fails under a configuration that does not validate, and when the
/// corpus scan runs out of time or breaks. An engine without rules is no
/// failure: the sample then matches nothing.
pub fn scan_with_engine(
    config: &ScannerConfig,
    ctx: &ScanContext,
    sample: &ContentSample,
    engine: &YaraEngine,
) -> (r: Result<ScanOutcome, ScanError>)
    ensures
        match config.validate_spec() {
            Err(fault) => r == Err::<ScanOutcome, ScanError>(ScanError::Config(fault)),
            Ok(()) => r matches Err(e) ==> engine.is_loaded() && (e is Timeout || e is Engine),
        },
        config.is_valid() && !engine.is_loaded() ==> (r matches Ok(outcome)
            && outcome.signatures@.len() == 0),
        r matches Ok(outcome) ==> outcome_of_scan(*config, *ctx, sample@, outcome),
        r matches Ok(outcome) ==> is_selection_of(
            match_names(outcome.signatures@),
            engine.corpus(),
        ),
{
    match config.validate() {
        Ok(()) => {},
        Err(fault) => {
            return Err(ScanError::Config(fault));
        },
    }
    let data = sample.as_slice();
    let signatures = match engine.matches(data) {
        Ok(found) => found,
        Err(e) => {
            return Err(e);
        },
    };
    let entropy = if config.enable_entropy_analysis {
        calculate_entropy(data)
    } else {
        EntropyReport::default()
    };
    Ok(fuse_outcome(config, ctx, data, signatures, entropy))
}

/// Scan one sample against the first rule source that can be loaded.
///
/// `sources` are the candidate rule texts, as for
/// `YaraEngine::from_sources`; the rest is `scan_with_engine`. Under a valid
/// configuration the scan fails only where the corpus scan ran out of time
/// or broke on the corpus of a candidate that loads. Where no candidate
/// loads there is no corpus: the scan succeeds, and the outcome has no
/// match.
pub fn scan_path(
    config: &ScannerConfig,
    ctx: &ScanContext,
    sample: &ContentSample,
    sources: &[Option<RuleSource>],
) -> (r: Result<ScanOutcome, ScanError>)
    ensures
        match config.validate_spec() {
            Err(fault) => r == Err::<ScanOutcome, ScanError>(ScanError::Config(fault)),
            Ok(()) => match r {
                Ok(outcome) => none_loads(sources@) ==> outcome.signatures@.len() == 0,
                Err(ScanError::Timeout) => !none_loads(sources@),
                Err(ScanError::Engine(_)) => !none_loads(sources@),
                Err(_) => false,
            },
        },
        config.is_valid() && none_loads(sources@) ==> r is Ok,
        r matches Ok(outcome) ==> outcome_of_scan(*config, *ctx, sample@, outcome),
        r matches Ok(outcome) ==> exists|engine: YaraEngine|
            #[trigger] is_engine_for(engine, sources@) && is_selection_of(
                match_names(outcome.signatures@),
                engine.corpus(),
            ),
{
    match config.validate() {
        Ok(()) => {},
        Err(fault) => {
            return Err(ScanError::Config(fault));
        },
    }
    let engine = YaraEngine::from_sources(sources);
    scan_with_engine(config, ctx, sample, &engine)
}

/// A scan is a function of what was read and found. Two outcomes of scans
/// of one sample for one request under one configuration that found the same
/// rule matches agree in every part: path, matches, score, action, and the
/// entropy and regions of their reports.
pub proof fn lemma_scan_is_repeatable(
    config: ScannerConfig,
    ctx: ScanContext,
    sample: Seq<u8>,
    first: ScanOutcome,
    second: ScanOutcome,
)
    requires
        outcome_of_scan(config, ctx, sample, first),
        outcome_of_scan(config, ctx, sample, second),
        first.signatures == second.signatures,
    ensures
        first.path == second.path,
        first.heuristic_score == second.heuristic_score,
        first.recommended_action == second.recommended_action,
        first.entropy.mean_entropy == second.entropy.mean_entropy,
        first.entropy.suspicious_regions@ == second.entropy.suspicious_regions@,
{
}

/// A rule match decides the outcome: whatever the configuration and the
/// entropy, an outcome with a rule match recommends quarantine.
pub proof fn lemma_outcome_with_match_quarantines(
    config: ScannerConfig,
    ctx: ScanContext,
    signatures: Vec<SignatureMatch>,
    entropy: EntropyReport,
)
    requires
        signatures@.len() > 0,
    ensures
        fused_outcome(config, ctx, signatures, entropy).recommended_action
            == crate::RecommendedAction::Quarantine,
{
}

} // verus!
