//! The time context attached to a user message: the current minute, the
//! weekday and the working directory, so the model knows "now" and "here".
use vstd::prelude::*;
use crate::text::{chars_of, push_str_chars, string_of, trim};
use crate::types::{now_utc_nanos, UTC_MAX_NANOS, UTC_MIN_NANOS};

verus! {

/// A day of the week.
#[derive(Clone, Copy, PartialEq, Eq, Debug, Structural)]
pub enum Weekday {
    Monday,
    Tuesday,
    Wednesday,
    Thursday,
    Friday,
    Saturday,
    Sunday,
}

/// The Chinese name of a weekday.
pub open spec fn weekday_name_spec(d: Weekday) -> Seq<char> {
    match d {
        Weekday::Monday => "星期一"@,
        Weekday::Tuesday => "星期二"@,
        Weekday::Wednesday => "星期三"@,
        Weekday::Thursday => "星期四"@,
        Weekday::Friday => "星期五"@,
        Weekday::Saturday => "星期六"@,
        Weekday::Sunday => "星期日"@,
    }
}

/// The Chinese name of a weekday.
pub fn weekday_name(d: Weekday) -> (s: &'static str)
    ensures
        s@ == weekday_name_spec(d),
{
    match d {
        Weekday::Monday => "星期一",
        Weekday::Tuesday => "星期二",
        Weekday::Wednesday => "星期三",
        Weekday::Thursday => "星期四",
        Weekday::Friday => "星期五",
        Weekday::Saturday => "星期六",
        Weekday::Sunday => "星期日",
    }
}

/// `<context>当前时间: <time> <weekday>[ | 工作区: <workdir>]</context>\n`;
/// the working directory is trimmed and left out when blank.
pub open spec fn context_line_spec(time_str: Seq<char>, day: Weekday, workdir: Option<Seq<char>>) -> Seq<
    char,
> {
    let head = "<context>当前时间: "@ + time_str + " "@ + weekday_name_spec(day);
    let mid = match workdir {
        Some(w) => if trim(w).len() > 0 {
            " | 工作区: "@ + trim(w)
        } else {
            Seq::empty()
        },
        None => Seq::empty(),
    };
    head + mid + "</context>\n"@
}

/// The context line of a moment (see [`context_line_spec`]).
pub fn context_line(time_str: &str, day: Weekday, workdir: Option<&str>) -> (r: String)
    ensures
        r@ == context_line_spec(
            time_str@,
            day,
            opt_str_view(workdir),
        ),
{
    let mut v: Vec<char> = Vec::new();
    push_str_chars(&mut v, "<context>当前时间: ");
    push_str_chars(&mut v, time_str);
    push_str_chars(&mut v, " ");
    push_str_chars(&mut v, weekday_name(day));
    match workdir {
        Some(w) => {
            let wv = chars_of(w);
            let (b, e) = crate::text::trim_indices(&wv, 0, wv.len());
            assert(wv@.subrange(0, wv@.len() as int) =~= wv@);
            if b < e {
                push_str_chars(&mut v, " | 工作区: ");
                crate::text::push_range(&mut v, &wv, b, e);
            }
        },
        None => {},
    }
    push_str_chars(&mut v, "</context>\n");
    assert(v@ =~= context_line_spec(
        time_str@,
        day,
        opt_str_view(workdir),
    ));
    string_of(v.as_slice())
}

/// The characters of an optional string slice.
pub open spec fn opt_str_view(w: Option<&str>) -> Option<Seq<char>> {
    match w {
        Some(x) => Some(x@),
        None => None,
    }
}

/// The format of the time in the context line.
pub const MINUTE_FORMAT: &'static str = "[year]-[month]-[day] [hour]:[minute]";

/// Nanoseconds per day.
pub const NANOS_PER_DAY: u128 = 86_400_000_000_000;

/// The weekday with index `i` (0 is Monday).
pub open spec fn weekday_of_index(i: int) -> Weekday {
    if i == 0 {
        Weekday::Monday
    } else if i == 1 {
        Weekday::Tuesday
    } else if i == 2 {
        Weekday::Wednesday
    } else if i == 3 {
        Weekday::Thursday
    } else if i == 4 {
        Weekday::Friday
    } else if i == 5 {
        Weekday::Saturday
    } else {
        Weekday::Sunday
    }
}

/// The weekday (UTC) of the instant `nanos` nanoseconds after the Unix
/// epoch, which fell on a Thursday.
pub open spec fn weekday_at(nanos: int) -> Weekday {
    weekday_of_index((nanos / NANOS_PER_DAY as int + 3) % 7)
}

fn weekday_of_index_exec(i: u128) -> (d: Weekday)
    requires
        i < 7,
    ensures
        d == weekday_of_index(i as int),
{
    if i == 0 {
        Weekday::Monday
    } else if i == 1 {
        Weekday::Tuesday
    } else if i == 2 {
        Weekday::Wednesday
    } else if i == 3 {
        Weekday::Thursday
    } else if i == 4 {
        Weekday::Friday
    } else if i == 5 {
        Weekday::Saturday
    } else {
        Weekday::Sunday
    }
}

/// The weekday (UTC) of the instant `nanos` (see [`weekday_at`]).
pub fn weekday_at_nanos(nanos: i128) -> (d: Weekday)
    ensures
        d == weekday_at(nanos as int),
{
    let dn: u128 = NANOS_PER_DAY;
    if nanos >= 0 {
        let u: u128 = nanos as u128;
        let q: u128 = u / dn;
        let w: u128 = q % 7;
        proof {
            vstd::arithmetic::div_mod::lemma_fundamental_div_mod(u as int, dn as int);
            vstd::arithmetic::div_mod::lemma_fundamental_div_mod_converse(
                nanos as int,
                dn as int,
                q as int,
                (u % dn) as int,
            );
        }
        weekday_of_index_exec((w + 3) % 7)
    } else {
        let m: u128 = (-(nanos + 1)) as u128;
        let q: u128 = m / dn;
        let t: u128 = (q % 7 + 1) % 7;
        let w: u128 = (7 - t) % 7;
        proof {
            let r = (m % dn) as int;
            vstd::arithmetic::div_mod::lemma_fundamental_div_mod(m as int, dn as int);
            assert(nanos as int == (-(q as int) - 1) * (dn as int) + (dn as int - r - 1)) by (nonlinear_arith)
                requires
                    m as int == -(nanos as int + 1),
                    m as int == (dn as int) * (q as int) + r,
            ;
            vstd::arithmetic::div_mod::lemma_fundamental_div_mod_converse(
                nanos as int,
                dn as int,
                -(q as int) - 1,
                dn as int - r - 1,
            );
            let days = -(q as int) - 1;
            let qm = (q % 7) as int;
            vstd::arithmetic::div_mod::lemma_fundamental_div_mod(q as int, 7);
            let k = (q as int) / 7;
            assert(days == (-k - 1) * 7 + (7 - ((qm + 1) % 7)) % 7 || days == -k * 7 + (7 - ((qm + 1) % 7)) % 7
                - 7) by (nonlinear_arith)
                requires
                    q as int == 7 * k + qm,
                    0 <= qm < 7,
                    days == -(q as int) - 1,
            ;
            if qm == 6 {
                vstd::arithmetic::div_mod::lemma_fundamental_div_mod_converse(days, 7, -k - 1, 0);
                assert(w == 0);
            } else {
                vstd::arithmetic::div_mod::lemma_fundamental_div_mod_converse(days, 7, -k - 1, 6 - qm);
                assert(t == qm + 1);
                assert(w == 6 - qm);
            }
        }
        weekday_of_index_exec((w + 3) % 7)
    }
}

/// The text of the UTC instant `nanos` (nanoseconds after the Unix epoch)
/// rendered by the format description `fmt`.
pub uninterp spec fn utc_text(nanos: int, fmt: Seq<char>) -> Seq<char>;

/// `OffsetDateTime::format`, of the UTC instant `nanos` by the description
/// text `fmt`: the arguments are converted to the crate's types by
/// `OffsetDateTime::from_unix_timestamp_nanos` and
/// `format_description::parse_owned` (version 2). `None` where the instant is
/// out of the crate's range, the description is refused, or rendering
/// fails. The text is named [`utc_text`]: it depends on the two arguments
/// alone. For the minute description and an instant in range it succeeds:
/// `from_unix_timestamp_nanos` errs only outside that range, the
/// description is valid, and `format` errs only for missing components, a
/// well-known format or a failed write, none of which apply.
#[verifier::external_body]
fn format_utc(nanos: i128, fmt: &str) -> (r: Option<String>)
    ensures
        r matches Some(s) ==> s@ == utc_text(nanos as int, fmt@),
        fmt@ == MINUTE_FORMAT@ && UTC_MIN_NANOS <= nanos <= UTC_MAX_NANOS ==> r is Some,
{
    let t = time::OffsetDateTime::from_unix_timestamp_nanos(nanos).ok()?;
    let f = time::format_description::parse_owned::<2>(fmt).ok()?;
    t.format(&f).ok()
}

/// The time context of now (UTC): the current minute and the weekday of
/// that same instant, and the working directory when given and not blank.
pub fn temporal_context(workdir: Option<&str>) -> (r: String)
    ensures
        exists|n: int| #![trigger weekday_at(n)]
            r@ == context_line_spec(utc_text(n, MINUTE_FORMAT@), weekday_at(n), opt_str_view(workdir)),
{
    let nanos = now_utc_nanos();
    let time_str = match format_utc(nanos, MINUTE_FORMAT) {
        Some(s) => s,
        None => string_of(chars_of("unknown").as_slice()),
    };
    let day = weekday_at_nanos(nanos);
    let r = context_line(time_str.as_str(), day, workdir);
    proof {
        assert(weekday_at(nanos as int) == day);
    }
    r
}

} // verus!
