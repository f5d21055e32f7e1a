//! The template encoder: a pattern string is compiled once into an ordered
//! list of placeholder nodes, and each event is rendered by one pass over
//! that list. Text outside `{ }` is literal; inside braces a bare
//! identifier names a placeholder, and each `(arg)` group following it
//! supplies one positional argument.

use vstd::prelude::*;
use vstd::seq_lib::*;
use vstd::string::*;
use std::fmt::Write;
use crate::{err_msg, Error};
use crate::config::PatternEncoderConfig;
use crate::level::{spec_level_name, Level};
use crate::render::{push_value_text, value_text};
use crate::snapshot::{FieldValue, Snapshot};
use crate::text::{dec_digits, push_char, str_equal, u32_to_string, u64_to_string};

verus! {

/// One compiled element of a pattern.
#[derive(Clone, Debug)]
pub enum Placeholder {
    /// A run of literal text.
    Literal { content: String },
    /// The event timestamp, rendered with the given format string.
    Datetime { format: String },
    /// The event's level name.
    Level,
    /// The event's target.
    Target,
    /// The emitting module path, or a fixed sentinel when unknown.
    Module,
    /// The emitting source file, or a fixed sentinel when unknown.
    File,
    /// The emitting source line, or `0` when unknown.
    Line,
    /// The rendered message.
    Message,
    /// Every key/value field, in insertion order, as
    /// `pair_separator + key + kv_separator + value`.
    KeyValuePairs { pair_separator: String, kv_separator: String },
    /// The ANSI color for the event's level.
    ColorStart,
    /// The ANSI reset code.
    ColorEnd,
}

/// The mathematical shape of one compiled element.
pub ghost enum Node {
    Literal(Seq<char>),
    Datetime(Seq<char>),
    Level,
    Target,
    Module,
    File,
    Line,
    Message,
    KeyValuePairs(Seq<char>, Seq<char>),
    ColorStart,
    ColorEnd,
}

impl View for Placeholder {
    type V = Node;

    open spec fn view(&self) -> Node {
        match self {
            Placeholder::Literal { content } => Node::Literal(content@),
            Placeholder::Datetime { format } => Node::Datetime(format@),
            Placeholder::Level => Node::Level,
            Placeholder::Target => Node::Target,
            Placeholder::Module => Node::Module,
            Placeholder::File => Node::File,
            Placeholder::Line => Node::Line,
            Placeholder::Message => Node::Message,
            Placeholder::KeyValuePairs { pair_separator, kv_separator } => Node::KeyValuePairs(
                pair_separator@,
                kv_separator@,
            ),
            Placeholder::ColorStart => Node::ColorStart,
            Placeholder::ColorEnd => Node::ColorEnd,
        }
    }
}

/// The views of a compiled placeholder list.
pub open spec fn nodes_of(v: Seq<Placeholder>) -> Seq<Node> {
    v.map_values(|p: Placeholder| p@)
}

/// The timestamp format used when `datetime` names none.
pub open spec fn spec_default_datetime_format() -> Seq<char> {
    "%Y-%m-%dT%H:%M:%S%.3f%z"@
}

/// The node a placeholder name and its argument list compile to, or
/// nothing when the name is unknown or the argument count is wrong:
/// `datetime` takes at most one argument, `kv` exactly two, every other
/// placeholder none.
pub open spec fn placeholder_for(name: Seq<char>, args: Seq<Seq<char>>) -> Option<Node> {
    if name == "datetime"@ {
        if args.len() > 1 {
            None
        } else if args.len() == 1 {
            Some(Node::Datetime(args[0]))
        } else {
            Some(Node::Datetime(spec_default_datetime_format()))
        }
    } else if name == "level"@ {
        if args.len() == 0 {
            Some(Node::Level)
        } else {
            None
        }
    } else if name == "target"@ {
        if args.len() == 0 {
            Some(Node::Target)
        } else {
            None
        }
    } else if name == "module"@ {
        if args.len() == 0 {
            Some(Node::Module)
        } else {
            None
        }
    } else if name == "file"@ {
        if args.len() == 0 {
            Some(Node::File)
        } else {
            None
        }
    } else if name == "line"@ {
        if args.len() == 0 {
            Some(Node::Line)
        } else {
            None
        }
    } else if name == "message"@ {
        if args.len() == 0 {
            Some(Node::Message)
        } else {
            None
        }
    } else if name == "kv"@ {
        if args.len() == 2 {
            Some(Node::KeyValuePairs(args[0], args[1]))
        } else {
            None
        }
    } else if name == "colorStart"@ {
        if args.len() == 0 {
            Some(Node::ColorStart)
        } else {
            None
        }
    } else if name == "colorEnd"@ {
        if args.len() == 0 {
            Some(Node::ColorEnd)
        } else {
            None
        }
    } else {
        None
    }
}

impl Placeholder {
    /// Compiles one placeholder from its name and argument list, exactly
    /// as `placeholder_for` describes it.
    pub fn try_parse(name: &str, args: &Vec<String>) -> (r: Result<Placeholder, Error>)
        ensures
            r is Ok <==> placeholder_for(name@, args.deep_view()) is Some,
            r matches Ok(p) ==> placeholder_for(name@, args.deep_view()) == Some(p@),
    {
        if str_equal(name, "datetime") {
            if args.len() > 1 {
                Err(err_msg("expecting at most one argument"))
            } else if args.len() == 1 {
                Ok(Placeholder::Datetime { format: args[0].clone() })
            } else {
                Ok(Placeholder::Datetime { format: String::from_str("%Y-%m-%dT%H:%M:%S%.3f%z") })
            }
        } else if str_equal(name, "level") {
            if args.len() != 0 {
                Err(err_msg("expecting no argument"))
            } else {
                Ok(Placeholder::Level)
            }
        } else if str_equal(name, "target") {
            if args.len() != 0 {
                Err(err_msg("expecting no argument"))
            } else {
                Ok(Placeholder::Target)
            }
        } else if str_equal(name, "module") {
            if args.len() != 0 {
                Err(err_msg("expecting no argument"))
            } else {
                Ok(Placeholder::Module)
            }
        } else if str_equal(name, "file") {
            if args.len() != 0 {
                Err(err_msg("expecting no argument"))
            } else {
                Ok(Placeholder::File)
            }
        } else if str_equal(name, "line") {
            if args.len() != 0 {
                Err(err_msg("expecting no argument"))
            } else {
                Ok(Placeholder::Line)
            }
        } else if str_equal(name, "message") {
            if args.len() != 0 {
                Err(err_msg("expecting no argument"))
            } else {
                Ok(Placeholder::Message)
            }
        } else if str_equal(name, "kv") {
            if args.len() != 2 {
                Err(err_msg("expecting exactly two arguments"))
            } else {
                Ok(
                    Placeholder::KeyValuePairs {
                        pair_separator: args[0].clone(),
                        kv_separator: args[1].clone(),
                    },
                )
            }
        } else if str_equal(name, "colorStart") {
            if args.len() != 0 {
                Err(err_msg("expecting no argument"))
            } else {
                Ok(Placeholder::ColorStart)
            }
        } else if str_equal(name, "colorEnd") {
            if args.len() != 0 {
                Err(err_msg("expecting no argument"))
            } else {
                Ok(Placeholder::ColorEnd)
            }
        } else {
            Err(err_msg("unknown placeholder name"))
        }
    }
}

/// The states of the pattern scanner.
#[derive(Clone, Copy, PartialEq, Eq, Structural, Debug)]
pub enum PatternScanState {
    /// Collecting literal text, until `{`.
    CollectLiteral,
    /// Collecting a placeholder name, until `(` or `}`.
    CollectPlaceholder,
    /// Collecting one argument, until `)`.
    CollectPlaceholderArg,
    /// After an argument: `(` opens another, `}` ends the placeholder.
    CollectNextPlaceholderArg,
}

/// The pattern scanner, one character at a time. `tmp` is the pending
/// literal, name or argument text, `name` the placeholder name once its
/// first argument opened, `args` the finished arguments, `acc` the
/// finished nodes. A pattern that ends inside a placeholder is malformed.
pub open spec fn pattern_scan_from(
    s: Seq<char>,
    i: int,
    st: PatternScanState,
    tmp: Seq<char>,
    name: Seq<char>,
    args: Seq<Seq<char>>,
    acc: Seq<Node>,
) -> Option<Seq<Node>>
    decreases s.len() - i,
{
    if i < 0 || i >= s.len() {
        match st {
            PatternScanState::CollectLiteral => Some(
                if tmp.len() == 0 {
                    acc
                } else {
                    acc.push(Node::Literal(tmp))
                },
            ),
            _ => None,
        }
    } else {
        let c = s[i];
        match st {
            PatternScanState::CollectLiteral => if c == '{' {
                pattern_scan_from(
                    s,
                    i + 1,
                    PatternScanState::CollectPlaceholder,
                    Seq::empty(),
                    name,
                    args,
                    if tmp.len() == 0 {
                        acc
                    } else {
                        acc.push(Node::Literal(tmp))
                    },
                )
            } else {
                pattern_scan_from(s, i + 1, PatternScanState::CollectLiteral, tmp.push(c), name, args, acc)
            },
            PatternScanState::CollectPlaceholder => if c == '}' {
                match placeholder_for(tmp, Seq::empty()) {
                    None => None,
                    Some(n) => pattern_scan_from(
                        s,
                        i + 1,
                        PatternScanState::CollectLiteral,
                        Seq::empty(),
                        name,
                        args,
                        acc.push(n),
                    ),
                }
            } else if c == '(' {
                pattern_scan_from(
                    s,
                    i + 1,
                    PatternScanState::CollectPlaceholderArg,
                    Seq::empty(),
                    tmp,
                    args,
                    acc,
                )
            } else {
                pattern_scan_from(
                    s,
                    i + 1,
                    PatternScanState::CollectPlaceholder,
                    tmp.push(c),
                    name,
                    args,
                    acc,
                )
            },
            PatternScanState::CollectPlaceholderArg => if c == ')' {
                pattern_scan_from(
                    s,
                    i + 1,
                    PatternScanState::CollectNextPlaceholderArg,
                    Seq::empty(),
                    name,
                    args.push(tmp),
                    acc,
                )
            } else {
                pattern_scan_from(
                    s,
                    i + 1,
                    PatternScanState::CollectPlaceholderArg,
                    tmp.push(c),
                    name,
                    args,
                    acc,
                )
            },
            PatternScanState::CollectNextPlaceholderArg => if c == '(' {
                pattern_scan_from(
                    s,
                    i + 1,
                    PatternScanState::CollectPlaceholderArg,
                    tmp,
                    name,
                    args,
                    acc,
                )
            } else if c == '}' {
                match placeholder_for(name, args) {
                    None => None,
                    Some(n) => pattern_scan_from(
                        s,
                        i + 1,
                        PatternScanState::CollectLiteral,
                        Seq::empty(),
                        Seq::empty(),
                        Seq::empty(),
                        acc.push(n),
                    ),
                }
            } else {
                None
            },
        }
    }
}

/// What a pattern compiles to, or nothing if it is malformed.
pub open spec fn pattern_nodes(s: Seq<char>) -> Option<Seq<Node>> {
    pattern_scan_from(
        s,
        0,
        PatternScanState::CollectLiteral,
        Seq::empty(),
        Seq::empty(),
        Seq::empty(),
        Seq::empty(),
    )
}

/// Compiles a pattern string into its placeholder list, exactly as
/// `pattern_nodes` describes it.
pub fn parse_placeholders(s: &str) -> (r: Result<Vec<Placeholder>, Error>)
    ensures
        r is Ok <==> pattern_nodes(s@) is Some,
        r matches Ok(v) ==> pattern_nodes(s@) == Some(nodes_of(v@)),
{
    let len = s.unicode_len();
    let mut st = PatternScanState::CollectLiteral;
    let mut tmp = String::new();
    let mut name = String::new();
    let mut args: Vec<String> = Vec::new();
    let mut acc: Vec<Placeholder> = Vec::new();
    proof {
        assert(nodes_of(acc@) =~= Seq::<Node>::empty());
        assert(args.deep_view() =~= Seq::<Seq<char>>::empty());
    }
    let mut i: usize = 0;
    while i < len
        invariant
            i <= len,
            len == s@.len(),
            pattern_scan_from(s@, i as int, st, tmp@, name@, args.deep_view(), nodes_of(acc@))
                == pattern_nodes(s@),
        decreases len - i,
    {
        let c = s.get_char(i);
        let ghost acc0 = nodes_of(acc@);
        let ghost args0 = args.deep_view();
        let ghost tmp0 = tmp@;
        match st {
            PatternScanState::CollectLiteral => {
                if c == '{' {
                    if tmp.unicode_len() > 0 {
                        let content = tmp.clone();
                        acc.push(Placeholder::Literal { content });
                        proof {
                            assert(nodes_of(acc@) =~= acc0.push(Node::Literal(tmp0)));
                        }
                    }
                    tmp = String::new();
                    st = PatternScanState::CollectPlaceholder;
                } else {
                    push_char(&mut tmp, c);
                }
            },
            PatternScanState::CollectPlaceholder => {
                if c == '}' {
                    let no_args: Vec<String> = Vec::new();
                    proof {
                        assert(no_args.deep_view() =~= Seq::<Seq<char>>::empty());
                    }
                    let placeholder = match Placeholder::try_parse(tmp.as_str(), &no_args) {
                        Ok(p) => p,
                        Err(e) => {
                            return Err(e.concat("invalid placeholder"));
                        },
                    };
                    acc.push(placeholder);
                    proof {
                        assert(nodes_of(acc@) =~= acc0.push(acc@.last()@));
                    }
                    tmp = String::new();
                    st = PatternScanState::CollectLiteral;
                } else if c == '(' {
                    name = tmp;
                    tmp = String::new();
                    st = PatternScanState::CollectPlaceholderArg;
                } else {
                    push_char(&mut tmp, c);
                }
            },
            PatternScanState::CollectPlaceholderArg => {
                if c == ')' {
                    args.push(tmp);
                    proof {
                        assert(args.deep_view() =~= args0.push(tmp0));
                    }
                    tmp = String::new();
                    st = PatternScanState::CollectNextPlaceholderArg;
                } else {
                    push_char(&mut tmp, c);
                }
            },
            PatternScanState::CollectNextPlaceholderArg => {
                if c == '(' {
                    st = PatternScanState::CollectPlaceholderArg;
                } else if c == '}' {
                    let placeholder = match Placeholder::try_parse(name.as_str(), &args) {
                        Ok(p) => p,
                        Err(e) => {
                            return Err(e.concat("invalid placeholder"));
                        },
                    };
                    acc.push(placeholder);
                    proof {
                        assert(nodes_of(acc@) =~= acc0.push(acc@.last()@));
                    }
                    tmp = String::new();
                    name = String::new();
                    args = Vec::new();
                    proof {
                        assert(args.deep_view() =~= Seq::<Seq<char>>::empty());
                    }
                    st = PatternScanState::CollectLiteral;
                } else {
                    return Err(err_msg("expecting '(' or '}'"));
                }
            },
        }
        i = i + 1;
    }
    match st {
        PatternScanState::CollectLiteral => {
            if tmp.unicode_len() > 0 {
                let ghost accn = nodes_of(acc@);
                let ghost tmpn = tmp@;
                acc.push(Placeholder::Literal { content: tmp });
                proof {
                    assert(nodes_of(acc@) =~= accn.push(Node::Literal(tmpn)));
                }
            }
            Ok(acc)
        },
        _ => Err(err_msg("incomplete placeholder at the end of the pattern")),
    }
}

/// The ANSI color selected for a level: red, yellow, green, blue and
/// magenta for the five levels from `Error` to `Trace`.
pub open spec fn spec_level_color(l: Level) -> Seq<char> {
    match l {
        Level::Error => "\u{1b}[31m"@,
        Level::Warn => "\u{1b}[33m"@,
        Level::Info => "\u{1b}[32m"@,
        Level::Debug => "\u{1b}[34m"@,
        Level::Trace => "\u{1b}[35m"@,
    }
}

/// The ANSI reset code.
pub open spec fn spec_color_reset() -> Seq<char> {
    "\u{1b}[0m"@
}

/// The ANSI color for a level, as `spec_level_color` gives it.
pub fn level2color(level: Level) -> (r: &'static str)
    ensures
        r@ == spec_level_color(level),
{
    match level {
        Level::Error => "\u{1b}[31m",
        Level::Warn => "\u{1b}[33m",
        Level::Info => "\u{1b}[32m",
        Level::Debug => "\u{1b}[34m",
        Level::Trace => "\u{1b}[35m",
    }
}

/// The sentinel printed for an unknown module or file.
pub open spec fn spec_unknown_text() -> Seq<char> {
    "<unknown>"@
}

/// The text of an optional string field, or `dflt` when it is absent.
pub open spec fn opt_text(o: Option<String>, dflt: Seq<char>) -> Seq<char> {
    match o {
        Some(s) => s@,
        None => dflt,
    }
}

/// What the `kv` placeholder emits: every field in insertion order,
/// duplicate keys included, as `ps + key + ks + value`.
pub open spec fn kv_text(fields: Seq<(String, FieldValue)>, ps: Seq<char>, ks: Seq<char>) -> Seq<
    char,
>
    decreases fields.len(),
{
    if fields.len() == 0 {
        Seq::empty()
    } else {
        kv_text(fields.drop_last(), ps, ks) + ps + fields.last().0@ + ks + value_text(
            fields.last().1,
        )
    }
}

/// The segment one field contributes to the `kv` placeholder's output.
pub open spec fn kv_segment(field: (String, FieldValue), ps: Seq<char>, ks: Seq<char>) -> Seq<
    char,
> {
    ps + field.0@ + ks + value_text(field.1)
}

/// The `kv` placeholder renders one segment per field, in insertion
/// order — a repeated key appears once per occurrence, nothing is
/// collapsed.
pub proof fn lemma_kv_renders_every_field(
    fields: Seq<(String, FieldValue)>,
    ps: Seq<char>,
    ks: Seq<char>,
)
    ensures
        kv_text(fields, ps, ks) == fields.map_values(
            |f: (String, FieldValue)| kv_segment(f, ps, ks),
        ).flatten(),
    decreases fields.len(),
{
    let segs = fields.map_values(|f: (String, FieldValue)| kv_segment(f, ps, ks));
    segs.lemma_flatten_and_flatten_alt_are_equivalent();
    if fields.len() == 0 {
        assert(kv_text(fields, ps, ks) =~= segs.flatten_alt());
    } else {
        lemma_kv_renders_every_field(fields.drop_last(), ps, ks);
        let prev = fields.drop_last().map_values(|f: (String, FieldValue)| kv_segment(f, ps, ks));
        prev.lemma_flatten_and_flatten_alt_are_equivalent();
        assert(segs.drop_last() =~= prev);
        assert(segs.last() == kv_segment(fields.last(), ps, ks));
        assert(kv_text(fields, ps, ks) =~= segs.flatten_alt());
    }
}

/// Is this node a `datetime` placeholder?
pub open spec fn node_is_datetime(n: Node) -> bool {
    n matches Node::Datetime(_)
}

/// How many of the first `k` nodes are `datetime` placeholders.
pub open spec fn datetime_count(nodes: Seq<Node>, k: int) -> int
    decreases k,
{
    if k <= 0 {
        0int
    } else {
        datetime_count(nodes, k - 1) + (if node_is_datetime(nodes[k - 1]) {
            1int
        } else {
            0int
        })
    }
}

/// The text one node contributes, `dts[j]` being the rendering of the
/// event timestamp for the `j`-th `datetime` node.
pub open spec fn node_text(n: Node, snap: Snapshot, dts: Seq<Seq<char>>, j: int) -> Seq<char> {
    match n {
        Node::Literal(t) => t,
        Node::Datetime(_) => dts[j],
        Node::Level => spec_level_name(snap.level),
        Node::Target => snap.target@,
        Node::Module => opt_text(snap.module, spec_unknown_text()),
        Node::File => opt_text(snap.file, spec_unknown_text()),
        Node::Line => match snap.line {
            Some(l) => dec_digits(l as nat),
            None => dec_digits(0),
        },
        Node::Message => snap.message@,
        Node::KeyValuePairs(ps, ks) => kv_text(snap.fields@, ps, ks),
        Node::ColorStart => spec_level_color(snap.level),
        Node::ColorEnd => spec_color_reset(),
    }
}

/// The rendering of the first `k` nodes of a pattern over one snapshot.
pub open spec fn render_prefix(
    nodes: Seq<Node>,
    k: int,
    snap: Snapshot,
    dts: Seq<Seq<char>>,
) -> Seq<char>
    decreases k,
{
    if k <= 0 {
        Seq::empty()
    } else {
        render_prefix(nodes, k - 1, snap, dts) + node_text(
            nodes[k - 1],
            snap,
            dts,
            datetime_count(nodes, k - 1),
        )
    }
}

/// The full rendering of a pattern over one snapshot, `dts` supplying the
/// timestamp renderings of the `datetime` nodes in order.
pub open spec fn rendered(nodes: Seq<Node>, snap: Snapshot, dts: Seq<Seq<char>>) -> Seq<char> {
    render_prefix(nodes, nodes.len() as int, snap, dts)
}

proof fn lemma_datetime_count_nonneg(nodes: Seq<Node>, k: int)
    requires
        k <= nodes.len(),
    ensures
        datetime_count(nodes, k) >= 0,
    decreases k,
{
    if k > 0 {
        lemma_datetime_count_nonneg(nodes, k - 1);
    }
}

proof fn lemma_datetime_count_mono(nodes: Seq<Node>, k: int)
    requires
        0 <= k <= nodes.len(),
    ensures
        datetime_count(nodes, k) <= datetime_count(nodes, nodes.len() as int),
        datetime_count(nodes, k) >= 0,
    decreases nodes.len() - k,
{
    lemma_datetime_count_nonneg(nodes, k);
    if k < nodes.len() {
        lemma_datetime_count_mono(nodes, k + 1);
    }
}

/// Relies on chrono's local-time formatting: renders the given millisecond
/// timestamp in the machine's local time zone with the given format
/// string. The result depends on that time zone, so nothing is promised of
/// it; an out-of-range timestamp or a malformed format string yields a
/// partial or empty rendering instead of a failure.
#[verifier::external_body]
fn format_timestamp(timestamp_millis: i64, format: &str) -> (r: String) {
    let mut out = String::new();
    if let Some(dt) = chrono::DateTime::from_timestamp_millis(timestamp_millis) {
        let local = dt.with_timezone(&chrono::Local);
        let _ = write!(out, "{}", local.format(format));
    }
    out
}

/// The template encoder: a compiled pattern, applied per event.
#[derive(Debug)]
pub struct PatternEncoder {
    /// The compiled nodes, in pattern order.
    pub placeholders: Vec<Placeholder>,
}

impl PatternEncoder {
    /// Compiles the configured pattern. A malformed pattern is a
    /// configuration error.
    pub fn from_config(config: &PatternEncoderConfig) -> (r: Result<PatternEncoder, Error>)
        ensures
            r is Ok <==> pattern_nodes(config.pattern@) is Some,
            r matches Ok(e) ==> pattern_nodes(config.pattern@) == Some(nodes_of(e.placeholders@)),
    {
        match parse_placeholders(config.pattern.as_str()) {
            Ok(placeholders) => Ok(PatternEncoder { placeholders }),
            Err(e) => Err(e.concat("invalid pattern")),
        }
    }

    /// How many `datetime` placeholders the pattern holds.
    pub fn datetime_slots(&self) -> (r: usize)
        ensures
            r as int == datetime_count(
                nodes_of(self.placeholders@),
                self.placeholders@.len() as int,
            ),
    {
        let ghost nodes = nodes_of(self.placeholders@);
        let mut count: usize = 0;
        let mut k: usize = 0;
        while k < self.placeholders.len()
            invariant
                k <= self.placeholders@.len(),
                nodes == nodes_of(self.placeholders@),
                count as int == datetime_count(nodes, k as int),
            decreases self.placeholders@.len() - k,
        {
            proof {
                assert(nodes[k as int] == self.placeholders@[k as int]@);
                lemma_datetime_count_nonneg(nodes, k as int);
            }
            if let Placeholder::Datetime { format: _ } = &self.placeholders[k] {
                proof {
                    assert(count < k + 1 <= usize::MAX) by {
                        lemma_datetime_count_bound(nodes, k as int);
                    }
                }
                count = count + 1;
            }
            k = k + 1;
        }
        count
    }

    /// Renders one snapshot, the caller supplying the timestamp rendering
    /// for each `datetime` node in pattern order. The output is exactly
    /// the concatenation the pattern describes; it has no trailing
    /// newline.
    pub fn encode_with(&self, snap: &Snapshot, datetime_texts: &Vec<String>) -> (r: String)
        requires
            datetime_texts@.len() == datetime_count(
                nodes_of(self.placeholders@),
                self.placeholders@.len() as int,
            ),
        ensures
            r@ == rendered(
                nodes_of(self.placeholders@),
                *snap,
                datetime_texts@.map_values(|s: String| s@),
            ),
    {
        let ghost nodes = nodes_of(self.placeholders@);
        let ghost dts = datetime_texts@.map_values(|s: String| s@);
        let mut out = String::new();
        let mut j: usize = 0;
        let mut k: usize = 0;
        while k < self.placeholders.len()
            invariant
                k <= self.placeholders@.len(),
                nodes == nodes_of(self.placeholders@),
                dts == datetime_texts@.map_values(|s: String| s@),
                datetime_texts@.len() == datetime_count(nodes, nodes.len() as int),
                j as int == datetime_count(nodes, k as int),
                out@ == render_prefix(nodes, k as int, *snap, dts),
            decreases self.placeholders@.len() - k,
        {
            proof {
                assert(nodes[k as int] == self.placeholders@[k as int]@);
                lemma_datetime_count_mono(nodes, k + 1);
            }
            match &self.placeholders[k] {
                Placeholder::Literal { content } => {
                    out.append(content.as_str());
                },
                Placeholder::Datetime { format: _ } => {
                    let ndt = datetime_texts.len();
                    proof {
                        assert(j < ndt);
                        assert(dts[j as int] == datetime_texts@[j as int]@);
                    }
                    out.append(datetime_texts[j].as_str());
                    j = j + 1;
                },
                Placeholder::Level => {
                    out.append(snap.level.name());
                },
                Placeholder::Target => {
                    out.append(snap.target.as_str());
                },
                Placeholder::Module => {
                    match &snap.module {
                        Some(m) => out.append(m.as_str()),
                        None => out.append("<unknown>"),
                    }
                },
                Placeholder::File => {
                    match &snap.file {
                        Some(f) => out.append(f.as_str()),
                        None => out.append("<unknown>"),
                    }
                },
                Placeholder::Line => {
                    match snap.line {
                        Some(l) => {
                            let t = u32_to_string(l);
                            out.append(t.as_str());
                        },
                        None => {
                            let t = u64_to_string(0);
                            out.append(t.as_str());
                        },
                    }
                },
                Placeholder::Message => {
                    out.append(snap.message.as_str());
                },
                Placeholder::KeyValuePairs { pair_separator, kv_separator } => {
                    let ghost ps = pair_separator@;
                    let ghost ks = kv_separator@;
                    let mut f: usize = 0;
                    while f < snap.fields.len()
                        invariant
                            f <= snap.fields@.len(),
                            out@ == render_prefix(nodes, k as int, *snap, dts) + kv_text(
                                snap.fields@.take(f as int),
                                ps,
                                ks,
                            ),
                            ps == pair_separator@,
                            ks == kv_separator@,
                        decreases snap.fields@.len() - f,
                    {
                        proof {
                            assert(snap.fields@.take(f + 1).drop_last() =~= snap.fields@.take(
                                f as int,
                            ));
                            assert(snap.fields@.take(f + 1).last() == snap.fields@[f as int]);
                        }
                        out.append(pair_separator.as_str());
                        out.append(snap.fields[f].0.as_str());
                        out.append(kv_separator.as_str());
                        push_value_text(&mut out, &snap.fields[f].1);
                        f = f + 1;
                    }
                    proof {
                        assert(snap.fields@.take(snap.fields@.len() as int) =~= snap.fields@);
                    }
                },
                Placeholder::ColorStart => {
                    out.append(level2color(snap.level));
                },
                Placeholder::ColorEnd => {
                    out.append("\u{1b}[0m");
                },
            }
            k = k + 1;
        }
        out
    }

    /// Renders one snapshot, formatting the event timestamp through the
    /// system's local time zone for each `datetime` node. Everything but
    /// those timestamp renderings is exactly what the pattern describes.
    pub fn encode(&self, snap: &Snapshot) -> (r: String)
        ensures
            exists|dts: Seq<Seq<char>>|
                dts.len() == datetime_count(
                    nodes_of(self.placeholders@),
                    self.placeholders@.len() as int,
                ) && r@ == rendered(nodes_of(self.placeholders@), *snap, dts),
    {
        let ghost nodes = nodes_of(self.placeholders@);
        let mut texts: Vec<String> = Vec::new();
        let mut k: usize = 0;
        while k < self.placeholders.len()
            invariant
                k <= self.placeholders@.len(),
                nodes == nodes_of(self.placeholders@),
                texts@.len() == datetime_count(nodes, k as int),
            decreases self.placeholders@.len() - k,
        {
            proof {
                assert(nodes[k as int] == self.placeholders@[k as int]@);
            }
            if let Placeholder::Datetime { format } = &self.placeholders[k] {
                let t = format_timestamp(snap.timestamp_millis, format.as_str());
                texts.push(t);
            }
            k = k + 1;
        }
        let r = self.encode_with(snap, &texts);
        proof {
            let dts = texts@.map_values(|s: String| s@);
            assert(dts.len() == datetime_count(nodes, self.placeholders@.len() as int));
        }
        r
    }
}

proof fn lemma_datetime_count_bound(nodes: Seq<Node>, k: int)
    requires
        0 <= k <= nodes.len(),
    ensures
        datetime_count(nodes, k) <= k,
    decreases k,
{
    if k > 0 {
        lemma_datetime_count_bound(nodes, k - 1);
    }
}

} // verus!
