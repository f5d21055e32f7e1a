//! Verified parsing helpers for configuration values: decimal numbers,
//! unit-suffixed file sizes (`k`/`m`/`g`, base 1024), and path strings with
//! `${VAR}` substitution markers (`$$` escapes a literal `$`). Looking up
//! the variables themselves is a caller's concern: the parser only splits
//! the string into literal runs and variable names.

use vstd::prelude::*;
use vstd::string::*;
use crate::{err_msg, Error};
use crate::text::push_char;

verus! {

/// Is `c` a decimal digit?
pub open spec fn is_dec_digit(c: char) -> bool {
    48 <= c as u32 <= 57
}

/// The numeric value of a decimal digit character.
pub open spec fn digit_val(c: char) -> int {
    c as u32 - 48
}

/// The value of a digit string read in base 10.
pub open spec fn dec_value(s: Seq<char>) -> int
    decreases s.len(),
{
    if s.len() == 0 {
        0
    } else {
        dec_value(s.drop_last()) * 10 + digit_val(s.last())
    }
}

/// Is every character of `s` a decimal digit?
pub open spec fn all_dec_digits(s: Seq<char>) -> bool {
    forall|i: int| 0 <= i < s.len() ==> is_dec_digit(s[i])
}

/// The digit portion of an unsigned decimal literal: a single leading
/// `+` sign is allowed and skipped, as std's `u64` parser does.
pub open spec fn u64_literal_digits(s: Seq<char>) -> Seq<char> {
    if s.len() > 0 && s[0] == '+' {
        s.drop_first()
    } else {
        s
    }
}

/// Does `s` parse as a `u64`: at least one digit after an optional `+`,
/// nothing else, and a value within range?
pub open spec fn parses_as_u64(s: Seq<char>) -> bool {
    let d = u64_literal_digits(s);
    d.len() > 0 && all_dec_digits(d) && dec_value(d) <= u64::MAX
}

/// The value `s` parses to, when `parses_as_u64(s)` holds.
pub open spec fn parsed_u64(s: Seq<char>) -> int {
    dec_value(u64_literal_digits(s))
}

proof fn lemma_dec_value_nonneg(s: Seq<char>)
    requires
        all_dec_digits(s),
    ensures
        dec_value(s) >= 0,
    decreases s.len(),
{
    if s.len() > 0 {
        assert(all_dec_digits(s.drop_last()));
        lemma_dec_value_nonneg(s.drop_last());
    }
}

proof fn lemma_dec_value_mono(s: Seq<char>, k: int)
    requires
        all_dec_digits(s),
        0 <= k <= s.len(),
    ensures
        dec_value(s.take(k)) <= dec_value(s),
    decreases s.len() - k,
{
    if k < s.len() {
        assert(s.take(k + 1).drop_last() =~= s.take(k));
        assert(s.take(k + 1).last() == s[k]);
        assert(all_dec_digits(s.take(k)));
        lemma_dec_value_nonneg(s.take(k));
        assert(dec_value(s.take(k)) <= dec_value(s.take(k + 1)));
        lemma_dec_value_mono(s, k + 1);
    } else {
        assert(s.take(k) =~= s);
    }
}

/// Parses an unsigned decimal literal, exactly as std's `u64` parser
/// accepts it: an optional `+`, then one or more digits, in range.
pub fn parse_u64(s: &str) -> (r: Result<u64, Error>)
    ensures
        r is Ok <==> parses_as_u64(s@),
        r matches Ok(v) ==> v as int == parsed_u64(s@),
{
    let len = s.unicode_len();
    let start: usize = if len > 0 && s.get_char(0) == '+' {
        1
    } else {
        0
    };
    proof {
        assert(u64_literal_digits(s@) =~= s@.subrange(start as int, len as int));
    }
    if start == len {
        return Err(err_msg("expecting at least one digit"));
    }
    let mut acc: u64 = 0;
    let mut i: usize = start;
    while i < len
        invariant
            start <= i <= len,
            len == s@.len(),
            u64_literal_digits(s@) =~= s@.subrange(start as int, len as int),
            all_dec_digits(s@.subrange(start as int, i as int)),
            acc as int == dec_value(s@.subrange(start as int, i as int)),
        decreases len - i,
    {
        let c = s.get_char(i);
        let cu = c as u32;
        if cu < 48 || cu > 57 {
            proof {
                assert(u64_literal_digits(s@)[i - start] == s@[i as int]);
            }
            return Err(err_msg("expecting a decimal digit"));
        }
        let dv = (cu - 48) as u64;
        proof {
            assert(s@.subrange(start as int, i + 1).drop_last() =~= s@.subrange(
                start as int,
                i as int,
            ));
            assert(s@.subrange(start as int, i + 1).last() == s@[i as int]);
        }
        let acc10 = match acc.checked_mul(10) {
            Some(x) => x,
            None => {
                proof {
                    let d = u64_literal_digits(s@);
                    if all_dec_digits(d) {
                        lemma_dec_value_mono(d, i + 1 - start);
                        assert(d.take(i + 1 - start) =~= s@.subrange(start as int, i + 1));
                    }
                }
                return Err(err_msg("number out of range"));
            },
        };
        let acc1 = match acc10.checked_add(dv) {
            Some(x) => x,
            None => {
                proof {
                    let d = u64_literal_digits(s@);
                    if all_dec_digits(d) {
                        lemma_dec_value_mono(d, i + 1 - start);
                        assert(d.take(i + 1 - start) =~= s@.subrange(start as int, i + 1));
                    }
                }
                return Err(err_msg("number out of range"));
            },
        };
        acc = acc1;
        i = i + 1;
    }
    proof {
        assert(s@.subrange(start as int, len as int) =~= u64_literal_digits(s@));
    }
    Ok(acc)
}

proof fn lemma_digit_roundtrip(d: int)
    requires
        0 <= d < 10,
    ensures
        digit_val(crate::text::digit_char(d)) == d,
{
}

/// Reading a decimal rendering back gives the number rendered: the
/// decimal rendering loses nothing.
pub proof fn lemma_dec_digits_value(n: nat)
    ensures
        dec_value(crate::text::dec_digits(n)) == n,
    decreases n,
{
    if n < 10 {
        let d = crate::text::dec_digits(n);
        assert(d == seq![crate::text::digit_char(n as int)]);
        assert(d.len() == 1);
        assert(d.drop_last() =~= Seq::<char>::empty());
        assert(dec_value(d.drop_last()) == 0);
        assert(d.last() == crate::text::digit_char(n as int));
        lemma_digit_roundtrip(n as int);
        assert(dec_value(d) == dec_value(d.drop_last()) * 10 + digit_val(d.last()));
    } else {
        lemma_dec_digits_value(n / 10);
        lemma_digit_roundtrip((n % 10) as int);
        let d = crate::text::dec_digits(n);
        assert(d == crate::text::dec_digits(n / 10).push(
            crate::text::digit_char((n % 10) as int),
        ));
        assert(d.len() == crate::text::dec_digits(n / 10).len() + 1);
        assert(d.drop_last() =~= crate::text::dec_digits(n / 10));
        assert(d.last() == crate::text::digit_char((n % 10) as int));
        assert(dec_value(d) == dec_value(d.drop_last()) * 10 + digit_val(d.last()));
        assert(dec_value(d) == (n / 10) * 10 + (n % 10));
    }
}

/// Two different numbers never share a decimal rendering.
pub proof fn lemma_dec_digits_injective(a: nat, b: nat)
    requires
        crate::text::dec_digits(a) == crate::text::dec_digits(b),
    ensures
        a == b,
{
    lemma_dec_digits_value(a);
    lemma_dec_digits_value(b);
}

/// The multiplier a size suffix stands for; 1 for a character that is
/// no recognized suffix.
pub open spec fn size_suffix_multiplier(c: char) -> int {
    if c == 'k' || c == 'K' {
        1024
    } else if c == 'm' || c == 'M' {
        1048576
    } else if c == 'g' || c == 'G' {
        1073741824
    } else {
        1
    }
}

/// The value of a size string: a `u64` literal with an optional `k`/`m`/`g`
/// suffix (either case, base 1024), or nothing if it is malformed.
pub open spec fn file_size_value(s: Seq<char>) -> Option<int> {
    let has_suffix = s.len() > 0 && size_suffix_multiplier(s.last()) != 1;
    let num = if has_suffix {
        s.drop_last()
    } else {
        s
    };
    let mult = if has_suffix {
        size_suffix_multiplier(s.last())
    } else {
        1
    };
    if parses_as_u64(num) {
        Some(parsed_u64(num) * mult)
    } else {
        None
    }
}

/// Parses a size string such as `"16"`, `"4k"` or `"1G"` into bytes.
/// A malformed or out-of-range size is a configuration error.
pub fn parse_file_size(s: &str) -> (r: Result<u64, Error>)
    ensures
        r is Ok <==> (file_size_value(s@) matches Some(n) && n <= u64::MAX as int),
        r matches Ok(v) ==> file_size_value(s@) == Some(v as int),
{
    let len = s.unicode_len();
    let mut mult: u64 = 1;
    let mut num_end: usize = len;
    if len > 0 {
        let last = s.get_char(len - 1);
        if last == 'k' || last == 'K' {
            mult = 1024;
            num_end = len - 1;
        } else if last == 'm' || last == 'M' {
            mult = 1048576;
            num_end = len - 1;
        } else if last == 'g' || last == 'G' {
            mult = 1073741824;
            num_end = len - 1;
        }
    }
    proof {
        assert(s@.take(len as int) =~= s@);
        if num_end < len {
            assert(s@.subrange(0, num_end as int) =~= s@.drop_last());
        }
    }
    let num = s.substring_char(0, num_end);
    let v = match parse_u64(num) {
        Ok(v) => v,
        Err(e) => {
            return Err(e.concat("invalid size"));
        },
    };
    match v.checked_mul(mult) {
        Some(x) => Ok(x),
        None => Err(err_msg("size out of range")),
    }
}

/// One piece of a path template: a literal run, or the name of a variable
/// whose value is spliced in by the caller.
#[derive(Clone, Debug)]
pub enum TemplatePart {
    Literal(String),
    Var(String),
}

/// The mathematical shape of one template piece.
pub ghost enum TemplatePartView {
    Literal(Seq<char>),
    Var(Seq<char>),
}

impl View for TemplatePart {
    type V = TemplatePartView;

    open spec fn view(&self) -> TemplatePartView {
        match self {
            TemplatePart::Literal(s) => TemplatePartView::Literal(s@),
            TemplatePart::Var(s) => TemplatePartView::Var(s@),
        }
    }
}

/// The views of a sequence of template pieces.
pub open spec fn template_views(parts: Seq<TemplatePart>) -> Seq<TemplatePartView> {
    parts.map_values(|p: TemplatePart| p@)
}

/// The states of the template scanner.
#[derive(Clone, Copy, PartialEq, Eq, Structural, Debug)]
pub enum EnvScanState {
    /// Collecting literal text, until a `$`.
    Normal,
    /// A `$` was read: the next character selects escape or variable.
    DollarMet,
    /// Inside `${`: collecting the variable name, until `}`.
    LeftBracketMet,
}

/// The template scanner, one character at a time. `lit` is the pending
/// literal run, `var` the pending variable name, `acc` the finished pieces.
/// A `$` followed by anything but `$` or `{` is malformed; a trailing `$`
/// or an unterminated `${` contributes nothing.
pub open spec fn env_scan_from(
    s: Seq<char>,
    i: int,
    st: EnvScanState,
    lit: Seq<char>,
    var: Seq<char>,
    acc: Seq<TemplatePartView>,
) -> Option<Seq<TemplatePartView>>
    decreases s.len() - i,
{
    if i < 0 || i >= s.len() {
        Some(
            if lit.len() == 0 {
                acc
            } else {
                acc.push(TemplatePartView::Literal(lit))
            },
        )
    } else {
        let c = s[i];
        match st {
            EnvScanState::Normal => if c == '$' {
                env_scan_from(s, i + 1, EnvScanState::DollarMet, lit, var, acc)
            } else {
                env_scan_from(s, i + 1, EnvScanState::Normal, lit.push(c), var, acc)
            },
            EnvScanState::DollarMet => if c == '$' {
                env_scan_from(s, i + 1, EnvScanState::Normal, lit.push('$'), var, acc)
            } else if c == '{' {
                env_scan_from(
                    s,
                    i + 1,
                    EnvScanState::LeftBracketMet,
                    Seq::empty(),
                    Seq::empty(),
                    if lit.len() == 0 {
                        acc
                    } else {
                        acc.push(TemplatePartView::Literal(lit))
                    },
                )
            } else {
                None
            },
            EnvScanState::LeftBracketMet => if c == '}' {
                env_scan_from(
                    s,
                    i + 1,
                    EnvScanState::Normal,
                    Seq::empty(),
                    Seq::empty(),
                    acc.push(TemplatePartView::Var(var)),
                )
            } else {
                env_scan_from(s, i + 1, EnvScanState::LeftBracketMet, lit, var.push(c), acc)
            },
        }
    }
}

/// What a template string splits into, or nothing if it is malformed.
pub open spec fn env_template_parts(s: Seq<char>) -> Option<Seq<TemplatePartView>> {
    env_scan_from(s, 0, EnvScanState::Normal, Seq::empty(), Seq::empty(), Seq::empty())
}

/// Splits a string with `${VAR}` markers into literal runs and variable
/// names. `$$` stands for a literal `$`; a `$` followed by anything else
/// is an error.
pub fn parse_env_template(s: &str) -> (r: Result<Vec<TemplatePart>, Error>)
    ensures
        r is Ok <==> env_template_parts(s@) is Some,
        r matches Ok(v) ==> env_template_parts(s@) == Some(template_views(v@)),
{
    let len = s.unicode_len();
    let mut st = EnvScanState::Normal;
    let mut lit = String::new();
    let mut var = String::new();
    let mut acc: Vec<TemplatePart> = Vec::new();
    proof {
        assert(template_views(acc@) =~= Seq::<TemplatePartView>::empty());
    }
    let mut i: usize = 0;
    while i < len
        invariant
            i <= len,
            len == s@.len(),
            env_scan_from(s@, i as int, st, lit@, var@, template_views(acc@)) == env_template_parts(
                s@,
            ),
        decreases len - i,
    {
        let c = s.get_char(i);
        let ghost acc0 = template_views(acc@);
        let ghost lit0 = lit@;
        let ghost var0 = var@;
        match st {
            EnvScanState::Normal => {
                if c == '$' {
                    st = EnvScanState::DollarMet;
                } else {
                    push_char(&mut lit, c);
                }
            },
            EnvScanState::DollarMet => {
                if c == '$' {
                    push_char(&mut lit, '$');
                    st = EnvScanState::Normal;
                } else if c == '{' {
                    if lit.unicode_len() > 0 {
                        let done = lit.clone();
                        acc.push(TemplatePart::Literal(done));
                        proof {
                            assert(template_views(acc@) =~= acc0.push(
                                TemplatePartView::Literal(lit0),
                            ));
                        }
                    }
                    lit = String::new();
                    var = String::new();
                    st = EnvScanState::LeftBracketMet;
                } else {
                    return Err(err_msg("literal '$' should be escaped by '$$'"));
                }
            },
            EnvScanState::LeftBracketMet => {
                if c == '}' {
                    let name = var.clone();
                    acc.push(TemplatePart::Var(name));
                    proof {
                        assert(template_views(acc@) =~= acc0.push(TemplatePartView::Var(var0)));
                    }
                    var = String::new();
                    lit = String::new();
                    st = EnvScanState::Normal;
                } else {
                    push_char(&mut var, c);
                }
            },
        }
        i = i + 1;
    }
    if lit.unicode_len() > 0 {
        let ghost accn = template_views(acc@);
        let ghost litn = lit@;
        acc.push(TemplatePart::Literal(lit));
        proof {
            assert(template_views(acc@) =~= accn.push(TemplatePartView::Literal(litn)));
        }
    }
    Ok(acc)
}

/// How many variable pieces a template has.
pub open spec fn var_count(parts: Seq<TemplatePartView>) -> int
    decreases parts.len(),
{
    if parts.len() == 0 {
        0int
    } else {
        var_count(parts.drop_last()) + (if parts.last() matches TemplatePartView::Var(_) {
            1int
        } else {
            0int
        })
    }
}

/// The text one piece contributes, `j` being the index of the next unused
/// variable value.
pub open spec fn template_part_text(p: TemplatePartView, vals: Seq<Seq<char>>, j: int) -> Seq<
    char,
> {
    match p {
        TemplatePartView::Literal(t) => t,
        TemplatePartView::Var(_) => vals[j],
    }
}

/// The text of the first `k` pieces, the variable values spliced in order.
pub open spec fn substituted_prefix(
    parts: Seq<TemplatePartView>,
    k: int,
    vals: Seq<Seq<char>>,
) -> Seq<char>
    decreases k,
{
    if k <= 0 {
        Seq::empty()
    } else {
        substituted_prefix(parts, k - 1, vals) + template_part_text(
            parts[k - 1],
            vals,
            var_count(parts.take(k - 1)),
        )
    }
}

/// The full text of a template, the variable values spliced in order.
pub open spec fn substituted(parts: Seq<TemplatePartView>, vals: Seq<Seq<char>>) -> Seq<char> {
    substituted_prefix(parts, parts.len() as int, vals)
}

proof fn lemma_var_count_nonneg(parts: Seq<TemplatePartView>)
    ensures
        var_count(parts) >= 0,
    decreases parts.len(),
{
    if parts.len() > 0 {
        lemma_var_count_nonneg(parts.drop_last());
    }
}

proof fn lemma_var_count_mono(parts: Seq<TemplatePartView>, k: int)
    requires
        0 <= k <= parts.len(),
    ensures
        var_count(parts.take(k)) <= var_count(parts),
        var_count(parts.take(k)) >= 0,
    decreases parts.len() - k,
{
    lemma_var_count_nonneg(parts.take(k));
    if k == parts.len() {
        assert(parts.take(k) =~= parts);
    } else {
        assert(parts.take(k + 1).drop_last() =~= parts.take(k));
        assert(parts.take(k + 1).last() == parts[k]);
        lemma_var_count_mono(parts, k + 1);
    }
}

/// Splices the given values into the template, one for each variable piece
/// in order.
pub fn substitute_template(parts: &Vec<TemplatePart>, values: &Vec<String>) -> (r: String)
    requires
        values@.len() == var_count(template_views(parts@)),
    ensures
        r@ == substituted(template_views(parts@), values@.map_values(|v: String| v@)),
{
    let ghost pviews = template_views(parts@);
    let ghost vals = values@.map_values(|v: String| v@);
    let mut out = String::new();
    let mut j: usize = 0;
    let mut k: usize = 0;
    while k < parts.len()
        invariant
            k <= parts@.len(),
            pviews == template_views(parts@),
            vals == values@.map_values(|v: String| v@),
            values@.len() == var_count(pviews),
            j as int == var_count(pviews.take(k as int)),
            out@ == substituted_prefix(pviews, k as int, vals),
        decreases parts@.len() - k,
    {
        proof {
            assert(pviews.take(k + 1).drop_last() =~= pviews.take(k as int));
            assert(pviews.take(k + 1).last() == pviews[k as int]);
            lemma_var_count_mono(pviews, k + 1);
        }
        match &parts[k] {
            TemplatePart::Literal(t) => {
                out.append(t.as_str());
            },
            TemplatePart::Var(_) => {
                let nvals = values.len();
                proof {
                    assert(pviews[k as int] == parts@[k as int]@);
                    assert(var_count(pviews.take(k + 1)) == j + 1);
                    assert(j < nvals);
                }
                out.append(values[j].as_str());
                j = j + 1;
            },
        }
        k = k + 1;
    }
    proof {
        assert(pviews.take(parts@.len() as int) =~= pviews);
    }
    out
}

} // verus!
