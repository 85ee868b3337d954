//! The template engine: validation and rendering of percent-escaped format
//! strings against a breakdown.
//!
//! A template is a sequence of literal characters and directives. A
//! directive is `%` followed by exactly one selector character; a literal
//! `%` is written `%%`. Validation checks every directive once, without
//! looking at any breakdown; rendering replays the same scan and substitutes
//! each directive's rendering.

use vstd::prelude::*;
use crate::decomposed::DecomposedTime;
use crate::decomposed::Decompose;
use crate::text::{dec_digits, pad_digits, pad2, pad3, push_dec, push_pad, push_pad2, push_pad3,
    chars_to_string};

verus! {

/// What can go wrong while building or rendering a duration format.
#[derive(Clone, Copy, Debug, PartialEq, Eq, Structural)]
pub enum FormatError {
    /// The template ends with a delimiter that selects no field.
    UnexpectedFieldDelimiter,
    /// A directive's selector is not in the recognized set.
    UnknownField,
    /// The output sink failed while writing.
    FmtError,
    /// The source value could not be reduced to signed seconds.
    DecomposeError,
    /// A folded total does not fit in 64 bits.
    ValueOutOfRange,
}

/// The recognized selector characters, the escape `%` among them.
pub open spec fn is_selector(c: char) -> bool {
    ||| c == 'S'
    ||| c == 'M'
    ||| c == 'H'
    ||| c == 'D'
    ||| c == 'Y'
    ||| c == 'F'
    ||| c == 'T'
    ||| c == 'U'
    ||| c == 's'
    ||| c == 'm'
    ||| c == 'h'
    ||| c == 'f'
    ||| c == 'x'
    ||| c == 'y'
    ||| c == 'z'
    ||| c == '%'
}

/// A template is valid when every `%` is followed by a recognized selector.
pub open spec fn valid_template(s: Seq<char>) -> bool
    decreases s.len(),
{
    if s.len() == 0 {
        true
    } else if s[0] == '%' {
        s.len() >= 2 && is_selector(s[1]) && valid_template(s.skip(2))
    } else {
        valid_template(s.skip(1))
    }
}

/// The error reported for the leftmost offence of an invalid template:
/// a trailing delimiter, or an unrecognized selector. Meaningful only when
/// the template is invalid.
pub open spec fn template_error(s: Seq<char>) -> FormatError
    decreases s.len(),
{
    if s.len() == 0 {
        FormatError::UnknownField
    } else if s[0] == '%' {
        if s.len() < 2 {
            FormatError::UnexpectedFieldDelimiter
        } else if !is_selector(s[1]) {
            FormatError::UnknownField
        } else {
            template_error(s.skip(2))
        }
    } else {
        template_error(s.skip(1))
    }
}

fn selector_ok(c: char) -> (r: bool)
    ensures
        r == is_selector(c),
{
    match c {
        'S' | 'M' | 'H' | 'D' | 'Y' | 'F' | 'T' | 'U' | 's' | 'm' | 'h' | 'f' | 'x' | 'y' | 'z'
            | '%' => true,
        _ => false,
    }
}

/// Scan a template once and check every directive, independently of any
/// breakdown. Accepted exactly when the template is valid; the error names
/// the leftmost offence.
fn validate_template(s: &str) -> (r: Result<(), FormatError>)
    ensures
        match r {
            Ok(_) => valid_template(s@),
            Err(e) => !valid_template(s@) && e == template_error(s@),
        },
{
    let len = s.unicode_len();
    let mut i: usize = 0;
    assert(s@.skip(0) =~= s@);
    while i < len
        invariant
            i <= len,
            len == s@.len(),
            valid_template(s@) <==> valid_template(s@.skip(i as int)),
            !valid_template(s@) ==> template_error(s@) == template_error(s@.skip(i as int)),
        decreases len - i,
    {
        let ghost pre = s@.skip(i as int);
        let c = s.get_char(i);
        assert(pre[0] == c);
        if c == '%' {
            if i + 1 < len {
                let f = s.get_char(i + 1);
                assert(pre[1] == f);
                if selector_ok(f) {
                    assert(pre.skip(2) =~= s@.skip(i + 2));
                    i = i + 2;
                } else {
                    assert(!valid_template(pre));
                    assert(template_error(pre) == FormatError::UnknownField);
                    return Err(FormatError::UnknownField);
                }
            } else {
                assert(pre.len() == 1);
                assert(!valid_template(pre));
                return Err(FormatError::UnexpectedFieldDelimiter);
            }
        } else {
            assert(pre.skip(1) =~= s@.skip(i + 1));
            i = i + 1;
        }
    }
    assert(s@.skip(len as int) =~= Seq::<char>::empty());
    Ok(())
}

/// `s` with every trailing `'0'` removed.
pub open spec fn strip_trailing_zeros(s: Seq<char>) -> Seq<char>
    decreases s.len(),
{
    if s.len() == 0 {
        s
    } else if s[s.len() - 1] == '0' {
        strip_trailing_zeros(s.take(s.len() - 1))
    } else {
        s
    }
}

/// The default rendering of the sub-second remainder: `0` when it is zero,
/// else `0.` followed by the nine nanosecond digits, trailing zeros removed.
pub open spec fn frac_default(nanos: nat) -> Seq<char> {
    if nanos == 0 {
        seq!['0']
    } else {
        seq!['0', '.'] + strip_trailing_zeros(pad_digits(nanos, 9))
    }
}

/// The rendering of the sub-second remainder with exactly five decimal
/// places, truncating below the fifth place.
pub open spec fn frac_fixed5(nanos: nat) -> Seq<char> {
    seq!['0', '.'] + pad_digits(nanos / 10000, 5)
}

/// What one directive renders to: the selected field of `t` in the
/// directive's style, or nothing when a folded total does not fit in 64
/// bits. Meaningful only for recognized selectors.
pub open spec fn field_render(t: DecomposedTime, c: char) -> Option<Seq<char>> {
    if c == 'x' {
        Some(pad3(t.spec_milliseconds() as nat))
    } else if c == 'y' {
        Some(pad3(t.spec_microseconds() as nat))
    } else if c == 'z' {
        Some(pad3(t.spec_nanoseconds() as nat))
    } else if c == 'f' {
        Some(frac_default(t.spec_frac_nanos() as nat))
    } else if c == 'F' {
        Some(frac_fixed5(t.spec_frac_nanos() as nat))
    } else if c == 's' {
        Some(dec_digits(t.spec_seconds() as nat))
    } else if c == 'm' {
        Some(dec_digits(t.spec_minutes() as nat))
    } else if c == 'h' {
        Some(dec_digits(t.spec_hours() as nat))
    } else if c == 'S' {
        Some(pad2(t.spec_seconds() as nat))
    } else if c == 'M' {
        Some(pad2(t.spec_minutes() as nat))
    } else if c == 'H' {
        Some(pad2(t.spec_hours() as nat))
    } else if c == 'D' {
        Some(dec_digits(t.spec_days() as nat))
    } else if c == 'Y' {
        Some(dec_digits(t.spec_years() as nat))
    } else if c == 'T' {
        if t.spec_total_hours() <= u64::MAX {
            Some(dec_digits(t.spec_total_hours() as nat))
        } else {
            None
        }
    } else if c == 'U' {
        if t.spec_total_days() <= u64::MAX {
            Some(dec_digits(t.spec_total_days() as nat))
        } else {
            None
        }
    } else if c == '%' {
        Some(seq!['%'])
    } else {
        None
    }
}

/// What a template renders to against `t`: literal characters unchanged,
/// each directive replaced by its field's rendering; nothing when some
/// folded total does not fit, or when the template is invalid.
pub open spec fn render(s: Seq<char>, t: DecomposedTime) -> Option<Seq<char>>
    decreases s.len(),
{
    if s.len() == 0 {
        Some(Seq::empty())
    } else if s[0] == '%' {
        if s.len() >= 2 && is_selector(s[1]) {
            match (field_render(t, s[1]), render(s.skip(2), t)) {
                (Some(a), Some(b)) => Some(a + b),
                _ => None,
            }
        } else {
            None
        }
    } else {
        match render(s.skip(1), t) {
            Some(b) => Some(seq![s[0]] + b),
            None => None,
        }
    }
}

/// Append the default rendering of a sub-second remainder of `nanos`
/// nanoseconds.
fn push_frac_default(out: &mut Vec<char>, nanos: u32)
    ensures
        final(out)@ == old(out)@ + frac_default(nanos as nat),
{
    if nanos == 0 {
        out.push('0');
        assert(out@ =~= old(out)@ + frac_default(0));
    } else {
        out.push('0');
        out.push('.');
        let mut digs: Vec<char> = Vec::new();
        push_pad(&mut digs, nanos as u64, 9);
        let mut j: usize = digs.len();
        assert(digs@.take(j as int) =~= digs@);
        while j > 0 && digs[j - 1] == '0'
            invariant
                j <= digs.len(),
                digs@ == pad_digits(nanos as nat, 9),
                strip_trailing_zeros(digs@) == strip_trailing_zeros(digs@.take(j as int)),
            decreases j,
        {
            assert(digs@.take(j as int).take(j - 1) =~= digs@.take(j - 1));
            j = j - 1;
        }
        assert(strip_trailing_zeros(digs@.take(j as int)) == digs@.take(j as int)) by {
            if j == 0 {
                assert(digs@.take(0) =~= Seq::<char>::empty());
            }
        }
        let mut k: usize = 0;
        while k < j
            invariant
                k <= j,
                j <= digs.len(),
                out@ == old(out)@ + seq!['0', '.'] + digs@.take(k as int),
            decreases j - k,
        {
            out.push(digs[k]);
            k = k + 1;
            assert(out@ =~= old(out)@ + seq!['0', '.'] + digs@.take(k as int));
        }
        assert(out@ =~= old(out)@ + frac_default(nanos as nat));
    }
}

/// Append the five-decimal-place rendering of a sub-second remainder of
/// `nanos` nanoseconds.
fn push_frac_fixed5(out: &mut Vec<char>, nanos: u32)
    ensures
        final(out)@ == old(out)@ + frac_fixed5(nanos as nat),
{
    out.push('0');
    out.push('.');
    push_pad(out, (nanos / 10000) as u64, 5);
    assert(out@ =~= old(out)@ + frac_fixed5(nanos as nat));
}

/// Append the rendering of the directive whose selector is `c`, or report
/// that a folded total does not fit in 64 bits.
fn push_field(out: &mut Vec<char>, t: &DecomposedTime, c: char) -> (r: Result<(), FormatError>)
    requires
        t.wf(),
        is_selector(c),
    ensures
        match r {
            Ok(_) => field_render(*t, c) matches Some(a) && final(out)@ == old(out)@ + a,
            Err(e) => field_render(*t, c) is None && e == FormatError::ValueOutOfRange,
        },
{
    if c == 'x' {
        push_pad3(out, t.milliseconds() as u64);
        Ok(())
    } else if c == 'y' {
        push_pad3(out, t.microseconds() as u64);
        Ok(())
    } else if c == 'z' {
        push_pad3(out, t.nanoseconds() as u64);
        Ok(())
    } else if c == 'f' {
        push_frac_default(out, t.fractional_nanoseconds());
        Ok(())
    } else if c == 'F' {
        push_frac_fixed5(out, t.fractional_nanoseconds());
        Ok(())
    } else if c == 's' {
        push_dec(out, t.seconds() as u64);
        Ok(())
    } else if c == 'm' {
        push_dec(out, t.minutes() as u64);
        Ok(())
    } else if c == 'h' {
        push_dec(out, t.hours() as u64);
        Ok(())
    } else if c == 'S' {
        push_pad2(out, t.seconds() as u64);
        Ok(())
    } else if c == 'M' {
        push_pad2(out, t.minutes() as u64);
        Ok(())
    } else if c == 'H' {
        push_pad2(out, t.hours() as u64);
        Ok(())
    } else if c == 'D' {
        push_dec(out, t.days() as u64);
        Ok(())
    } else if c == 'Y' {
        push_dec(out, t.years());
        Ok(())
    } else if c == 'T' {
        match t.total_hours() {
            Some(h) => {
                push_dec(out, h);
                Ok(())
            },
            None => Err(FormatError::ValueOutOfRange),
        }
    } else if c == 'U' {
        match t.total_days() {
            Some(d) => {
                push_dec(out, d);
                Ok(())
            },
            None => Err(FormatError::ValueOutOfRange),
        }
    } else {
        out.push('%');
        assert(out@ =~= old(out)@ + seq!['%']);
        Ok(())
    }
}

/// A validated template paired with the breakdown it renders.
#[derive(Clone, Debug, PartialEq)]
pub struct DurationFormat<'a> {
    format: &'a str,
    time: DecomposedTime,
}

impl<'a> DurationFormat<'a> {
    pub closed spec fn spec_format(self) -> Seq<char> {
        self.format@
    }

    pub closed spec fn spec_time(self) -> DecomposedTime {
        self.time
    }

    /// The template is valid and the breakdown is within its ranges.
    pub open spec fn wf(self) -> bool {
        valid_template(self.spec_format()) && self.spec_time().wf()
    }

    /// Pair a template with an already-built breakdown, validating the
    /// template. Fails exactly on an invalid template, naming its leftmost
    /// offence.
    pub fn new(format_str: &'a str, time: DecomposedTime) -> (r: Result<
        DurationFormat<'a>,
        FormatError,
    >)
        requires
            time.wf(),
        ensures
            match r {
                Ok(f) => valid_template(format_str@) && f.wf() && f.spec_format() == format_str@
                    && f.spec_time() == time,
                Err(e) => !valid_template(format_str@) && e == template_error(format_str@),
            },
    {
        match validate_template(format_str) {
            Ok(_) => Ok(DurationFormat { format: format_str, time }),
            Err(e) => Err(e),
        }
    }

    /// The template string.
    pub fn format_string(&self) -> (r: &'a str)
        ensures
            r@ == self.spec_format(),
    {
        self.format
    }

    /// The breakdown being rendered.
    pub fn time(&self) -> (r: &DecomposedTime)
        ensures
            *r == self.spec_time(),
    {
        &self.time
    }

    /// Render the template against the breakdown. Fails exactly when a `T`
    /// or `U` fold does not fit in 64 bits; on failure nothing of the
    /// partial output is returned.
    pub fn format(&self) -> (r: Result<String, FormatError>)
        requires
            self.wf(),
        ensures
            match r {
                Ok(out) => render(self.spec_format(), self.spec_time()) == Some(out@),
                Err(e) => render(self.spec_format(), self.spec_time()) is None && e
                    == FormatError::ValueOutOfRange,
            },
    {
        let s = self.format;
        let len = s.unicode_len();
        let mut out: Vec<char> = Vec::new();
        let mut i: usize = 0;
        assert(s@.skip(0) =~= s@);
        while i < len
            invariant
                i <= len,
                len == s@.len(),
                s@ == self.spec_format(),
                self.spec_time().wf(),
                valid_template(s@.skip(i as int)),
                match render(s@.skip(i as int), self.spec_time()) {
                    Some(rest) => render(s@, self.spec_time()) == Some(out@ + rest),
                    None => render(s@, self.spec_time()) is None,
                },
            decreases len - i,
        {
            let ghost pre = s@.skip(i as int);
            let ghost out0 = out@;
            let c = s.get_char(i);
            assert(pre[0] == c);
            if c == '%' {
                assert(pre.len() >= 2 && is_selector(pre[1]));
                let f = s.get_char(i + 1);
                assert(pre[1] == f);
                match push_field(&mut out, &self.time, f) {
                    Ok(_) => {
                        proof {
                            assert(pre.skip(2) =~= s@.skip(i + 2));
                            let a = field_render(self.spec_time(), f)->Some_0;
                            match render(s@.skip(i + 2), self.spec_time()) {
                                Some(rest2) => {
                                    assert(render(pre, self.spec_time()) == Some(a + rest2));
                                    assert((out0 + a) + rest2 =~= out0 + (a + rest2));
                                },
                                None => {},
                            }
                        }
                        i = i + 2;
                    },
                    Err(e) => {
                        proof {
                            assert(render(pre, self.spec_time()) is None);
                        }
                        return Err(e);
                    },
                }
            } else {
                out.push(c);
                proof {
                    assert(pre.skip(1) =~= s@.skip(i + 1));
                    match render(s@.skip(i + 1), self.spec_time()) {
                        Some(rest1) => {
                            assert(render(pre, self.spec_time()) == Some(seq![c] + rest1));
                            assert((out0 + seq![c]) + rest1 =~= out0 + (seq![c] + rest1));
                            assert(out@ =~= out0 + seq![c]);
                        },
                        None => {},
                    }
                }
                i = i + 1;
            }
        }
        assert(s@.skip(len as int) =~= Seq::<char>::empty());
        assert(out@ + Seq::<char>::empty() =~= out@);
        Ok(chars_to_string(&out))
    }
}

/// An invalid template's leftmost offence is always one of the two template
/// errors, never an error of another kind.
proof fn lemma_template_error_kind(s: Seq<char>)
    ensures
        template_error(s) == FormatError::UnexpectedFieldDelimiter || template_error(s)
            == FormatError::UnknownField,
    decreases s.len(),
{
    if s.len() == 0 {
    } else if s[0] == '%' {
        if s.len() >= 2 && is_selector(s[1]) {
            lemma_template_error_kind(s.skip(2));
        }
    } else {
        lemma_template_error_kind(s.skip(1));
    }
}

/// Decompose a source duration and pair the result with a validated
/// template, ready for repeated rendering. Decomposition is attempted
/// first: when it fails, the decompose error is reported whatever the
/// template; when it succeeds, the outcome is exactly that of pairing its
/// breakdown with the template.
pub fn make_format<'a, D: Decompose>(format_str: &'a str, time: D) -> (r: Result<
    DurationFormat<'a>,
    FormatError,
>)
    ensures
        r matches Ok(f) ==> f.wf() && f.spec_format() == format_str@ && valid_template(
            format_str@,
        ) && (exists|t: DecomposedTime|
            call_ensures(D::decompose, (time,), Ok::<DecomposedTime, D::Error>(t))
                && f.spec_time() == t),
        !valid_template(format_str@) ==> r is Err,
        r matches Err(e) ==> (e == FormatError::DecomposeError || (!valid_template(format_str@)
            && e == template_error(format_str@))) && (e == FormatError::DecomposeError ==> (
        exists|er: D::Error|
            call_ensures(D::decompose, (time,), Err::<DecomposedTime, D::Error>(er)))) && (e
            != FormatError::DecomposeError ==> (exists|t: DecomposedTime|
            call_ensures(D::decompose, (time,), Ok::<DecomposedTime, D::Error>(t)))),
        (forall|t: DecomposedTime|
            !call_ensures(D::decompose, (time,), Ok::<DecomposedTime, D::Error>(t))) ==> r
            == Err::<DurationFormat<'a>, FormatError>(FormatError::DecomposeError),
{
    let dr = time.decompose();
    match dr {
        Ok(t) => {
            proof {
                assert(call_ensures(D::decompose, (time,), Ok::<DecomposedTime, D::Error>(t)));
                lemma_template_error_kind(format_str@);
            }
            DurationFormat::new(format_str, t)
        },
        Err(er) => {
            proof {
                assert(call_ensures(D::decompose, (time,), Err::<DecomposedTime, D::Error>(er)));
            }
            Err(FormatError::DecomposeError)
        },
    }
}

/// Decompose a source duration and render it through `format` in one call:
/// the one-shot counterpart of `make_format` followed by `format`, with the
/// same outcomes. The rendered string is the rendering of the template
/// against a breakdown that the source's decomposition can produce.
pub fn format_duration<D: Decompose>(format: &str, time: D) -> (r: Result<String, FormatError>)
    ensures
        r matches Ok(out) ==> valid_template(format@) && (exists|t: DecomposedTime|
            call_ensures(D::decompose, (time,), Ok::<DecomposedTime, D::Error>(t)) && t.wf()
                && render(format@, t) == Some(out@)),
        !valid_template(format@) ==> r is Err,
        r matches Err(e) ==> (e == FormatError::DecomposeError || e
            == FormatError::ValueOutOfRange || (!valid_template(format@) && e == template_error(
            format@,
        ))) && (e == FormatError::DecomposeError ==> (exists|er: D::Error|
            call_ensures(D::decompose, (time,), Err::<DecomposedTime, D::Error>(er)))) && (e
            != FormatError::DecomposeError ==> (exists|t: DecomposedTime|
            call_ensures(D::decompose, (time,), Ok::<DecomposedTime, D::Error>(t)))) && (e
            == FormatError::ValueOutOfRange ==> valid_template(format@) && (exists|
            t: DecomposedTime,
        |
            call_ensures(D::decompose, (time,), Ok::<DecomposedTime, D::Error>(t)) && t.wf()
                && render(format@, t) is None)),
        (forall|t: DecomposedTime|
            !call_ensures(D::decompose, (time,), Ok::<DecomposedTime, D::Error>(t))) ==> r
            == Err::<String, FormatError>(FormatError::DecomposeError),
{
    let fmt = match make_format(format, time) {
        Ok(f) => f,
        Err(e) => {
            proof {
                lemma_template_error_kind(format@);
            }
            return Err(e);
        },
    };
    match fmt.format() {
        Ok(out) => {
            proof {
                assert(render(format@, fmt.spec_time()) == Some(out@));
            }
            Ok(out)
        },
        Err(e) => Err(e),
    }
}

/// Render an already-built breakdown through `format` in one call: validate
/// the template, then render it. The result is pinned down exactly: the
/// rendering of the template against the breakdown, or the template's
/// leftmost offence, or the overflow error when a folded total does not fit.
pub fn format_decomposed(format: &str, time: &DecomposedTime) -> (r: Result<String, FormatError>)
    requires
        time.wf(),
    ensures
        match r {
            Ok(out) => valid_template(format@) && render(format@, *time) == Some(out@),
            Err(e) => (!valid_template(format@) && e == template_error(format@)) || (
            valid_template(format@) && render(format@, *time) is None && e
                == FormatError::ValueOutOfRange),
        },
{
    let fmt = match DurationFormat::new(format, *time) {
        Ok(f) => f,
        Err(e) => {
            return Err(e);
        },
    };
    fmt.format()
}

/// A lone trailing delimiter is never a valid template, and a single
/// directive is valid exactly when its selector is recognized.
pub proof fn lemma_directive_validity(c: char)
    ensures
        !valid_template(seq!['%']),
        valid_template(seq!['%', c]) <==> is_selector(c),
{
    let s1 = seq!['%'];
    assert(s1.len() == 1 && s1[0] == '%');
    let s2 = seq!['%', c];
    assert(s2.len() == 2 && s2[0] == '%' && s2[1] == c);
    assert(s2.skip(2) =~= Seq::<char>::empty());
    assert(valid_template(Seq::<char>::empty()));
}

/// Rendering is deterministic: it is a function of the template and the
/// breakdown alone, so any two renderings of the same pair are the same.
pub proof fn lemma_render_deterministic(
    s: Seq<char>,
    t: DecomposedTime,
    r1: Option<Seq<char>>,
    r2: Option<Seq<char>>,
)
    requires
        r1 == render(s, t),
        r2 == render(s, t),
    ensures
        r1 == r2,
{
}

} // verus!


