//! Date inference: maps an audio file's relative path to the broadcast
//! date-time it encodes. The path is split at `/`; the segment after the
//! discarded anchor must be the literal archive directory, a year directory
//! must follow, and the first six characters of the file name encode the
//! date: two digits of year (offset from 2000), two of month, two of day.
//! A missing or non-numeric day falls back to the first of the month. The
//! time of day is fixed at 18:00 with a fixed offset of eight hours west
//! of UTC.
use vstd::prelude::*;
use vstd::string::StrSliceExecFns;

verus! {

/// A calendar date-time with a fixed offset from UTC, held as plain fields.
/// The month and day are carried as decoded and are not range-checked.
#[derive(Clone, Copy, PartialEq, Eq, Structural, Debug)]
pub struct TalkDateTime {
    pub year: i32,
    pub month: u8,
    pub day: u8,
    pub hour: u8,
    pub minute: u8,
    pub second: u8,
    /// Seconds east of UTC; negative for the Western Hemisphere.
    pub utc_offset_secs: i32,
}

/// Why a path failed to yield a date.
#[derive(Clone, Copy, PartialEq, Eq, Structural, Debug)]
pub enum DateError {
    MissingArchiveDir,
    MissingYearDir,
    MissingFilename,
    BaseNotArchive,
    BadYear,
    BadMonth,
}

/// The pieces of `s` between occurrences of `/`, in order; splitting the
/// empty sequence yields one empty piece, as `str::split` does.
pub open spec fn split_slash(s: Seq<char>) -> Seq<Seq<char>>
    decreases s.len(),
{
    if s.len() == 0 {
        seq![Seq::<char>::empty()]
    } else if s[0] == '/' {
        seq![Seq::<char>::empty()] + split_slash(s.drop_first())
    } else {
        let rest = split_slash(s.drop_first());
        seq![seq![s[0]] + rest[0]] + rest.drop_first()
    }
}

pub open spec fn is_digit(c: char) -> bool {
    ('0' as int) <= (c as int) && (c as int) <= ('9' as int)
}

pub open spec fn dval(c: char) -> int {
    (c as int) - ('0' as int)
}

/// Whether the path has the required shape: an anchor segment, the literal
/// archive directory, a year directory, and a file name starting with four
/// digits of year and month.
pub open spec fn date_parse_ok(s: Seq<char>) -> bool {
    let parts = split_slash(s);
    &&& parts.len() >= 4
    &&& parts[1] == "Archive"@
    &&& parts[3].len() >= 2 && is_digit(parts[3][0]) && is_digit(parts[3][1])
    &&& parts[3].len() >= 4 && is_digit(parts[3][2]) && is_digit(parts[3][3])
}

/// Whether the file name also carries two digits of day.
pub open spec fn day_digits(f: Seq<char>) -> bool {
    f.len() >= 6 && is_digit(f[4]) && is_digit(f[5])
}

/// The date a well-shaped path encodes: year offset from 2000, month as
/// written, day as written or the fallback day 1, at 18:00:00, eight hours
/// west of UTC.
pub open spec fn date_of_path(s: Seq<char>) -> TalkDateTime {
    let f = split_slash(s)[3];
    TalkDateTime {
        year: (2000 + 10 * dval(f[0]) + dval(f[1])) as i32,
        month: (10 * dval(f[2]) + dval(f[3])) as u8,
        day: if day_digits(f) {
            (10 * dval(f[4]) + dval(f[5])) as u8
        } else {
            1u8
        },
        hour: 18u8,
        minute: 0u8,
        second: 0u8,
        utc_offset_secs: -28800i32,
    }
}

/// The error an ill-shaped path yields, in the order the checks are made:
/// the three segments must exist, the base directory must match, and the
/// year then month characters must be numeric.
pub open spec fn date_err_of_path(s: Seq<char>) -> DateError {
    let parts = split_slash(s);
    if parts.len() < 2 {
        DateError::MissingArchiveDir
    } else if parts.len() < 3 {
        DateError::MissingYearDir
    } else if parts.len() < 4 {
        DateError::MissingFilename
    } else if parts[1] != "Archive"@ {
        DateError::BaseNotArchive
    } else if !(parts[3].len() >= 2 && is_digit(parts[3][0]) && is_digit(parts[3][1])) {
        DateError::BadYear
    } else {
        DateError::BadMonth
    }
}


/// The wording of each date-inference error.
pub open spec fn date_error_message(e: DateError) -> Seq<char> {
    match e {
        DateError::MissingArchiveDir => "missing archive directory"@,
        DateError::MissingYearDir => "missing year directory"@,
        DateError::MissingFilename => "missing mp3 file name"@,
        DateError::BaseNotArchive => "base directory is not \"Archive\""@,
        DateError::BadYear => "parsing year"@,
        DateError::BadMonth => "parsing month"@,
    }
}

impl DateError {
    /// The error's wording, for reporting.
    pub fn message(&self) -> (r: String)
        ensures
            r@ == date_error_message(*self),
    {
        match self {
            DateError::MissingArchiveDir => String::from_str("missing archive directory"),
            DateError::MissingYearDir => String::from_str("missing year directory"),
            DateError::MissingFilename => String::from_str("missing mp3 file name"),
            DateError::BaseNotArchive => String::from_str("base directory is not \"Archive\""),
            DateError::BadYear => String::from_str("parsing year"),
            DateError::BadMonth => String::from_str("parsing month"),
        }
    }
}

pub proof fn lemma_split_nonempty(s: Seq<char>)
    ensures
        split_slash(s).len() >= 1,
    decreases s.len(),
{
    if s.len() == 0 {
    } else if s[0] == '/' {
        lemma_split_nonempty(s.drop_first());
    } else {
        lemma_split_nonempty(s.drop_first());
    }
}

/// Appending one character extends the split: a separator opens a new empty
/// piece, any other character lands on the end of the last piece.
pub proof fn lemma_split_push(s: Seq<char>, c: char)
    ensures
        c == '/' ==> split_slash(s.push(c)) == split_slash(s).push(Seq::<char>::empty()),
        c != '/' ==> split_slash(s.push(c)) == split_slash(s).update(
            split_slash(s).len() - 1,
            split_slash(s).last().push(c),
        ),
    decreases s.len(),
{
    lemma_split_nonempty(s);
    let t = s.push(c);
    if s.len() == 0 {
        assert(s =~= Seq::<char>::empty());
        assert(t.drop_first() =~= s);
        if c == '/' {
            assert(split_slash(t) =~~= split_slash(s).push(Seq::<char>::empty()));
        } else {
            assert(split_slash(t) =~~= split_slash(s).update(
                split_slash(s).len() - 1,
                split_slash(s).last().push(c),
            ));
        }
    } else {
        lemma_split_nonempty(s.drop_first());
        lemma_split_push(s.drop_first(), c);
        assert(t[0] == s[0]);
        assert(t.drop_first() =~= s.drop_first().push(c));
        let r = split_slash(s.drop_first());
        let rp = split_slash(t.drop_first());
        if c == '/' {
            assert(rp == r.push(Seq::<char>::empty()));
            if s[0] == '/' {
                assert(split_slash(t) =~~= split_slash(s).push(Seq::<char>::empty()));
            } else {
                assert(rp[0] == r[0]);
                assert(rp.drop_first() =~= r.drop_first().push(Seq::<char>::empty()));
                assert(split_slash(t) =~~= split_slash(s).push(Seq::<char>::empty()));
            }
        } else {
            assert(rp == r.update(r.len() - 1, r.last().push(c)));
            if s[0] == '/' {
                assert(split_slash(t) =~~= split_slash(s).update(
                    split_slash(s).len() - 1,
                    split_slash(s).last().push(c),
                ));
            } else {
                if r.len() == 1 {
                    assert(rp[0] == r[0].push(c));
                    assert(split_slash(t) =~~= split_slash(s).update(
                        split_slash(s).len() - 1,
                        split_slash(s).last().push(c),
                    ));
                } else {
                    assert(rp[0] == r[0]);
                    assert(rp.drop_first() =~= r.drop_first().update(
                        r.len() - 2,
                        r.last().push(c),
                    ));
                    assert(split_slash(t) =~~= split_slash(s).update(
                        split_slash(s).len() - 1,
                        split_slash(s).last().push(c),
                    ));
                }
            }
        }
    }
}

fn digit_val(c: char) -> (r: Option<u8>)
    ensures
        match r {
            Some(v) => is_digit(c) && v == dval(c),
            None => !is_digit(c),
        },
{
    let u = c as u32;
    if 48 <= u && u <= 57 {
        Some((u - 48) as u8)
    } else {
        None
    }
}

/// Infers the broadcast date from an audio file's relative path, or says
/// exactly why the path cannot carry one.
pub fn get_date(url: &str) -> (r: Result<TalkDateTime, DateError>)
    ensures
        match r {
            Ok(d) => date_parse_ok(url@) && d == date_of_path(url@),
            Err(e) => !date_parse_ok(url@) && e == date_err_of_path(url@),
        },
{
    let n = url.unicode_len();
    let mut done: Vec<Vec<char>> = Vec::new();
    let mut cur: Vec<char> = Vec::new();
    let mut i: usize = 0;
    proof {
        assert(url@.take(0) =~= Seq::<char>::empty());
    }
    while i < n
        invariant
            i <= n,
            n == url@.len(),
            ({
                let sp = split_slash(url@.take(i as int));
                &&& done@.len() + 1 == sp.len()
                &&& forall|k: int| 0 <= k < done@.len() ==> done@[k]@ == sp[k]
                &&& cur@ == sp[sp.len() - 1]
            }),
        decreases n - i,
    {
        let c = url.get_char(i);
        proof {
            lemma_split_nonempty(url@.take(i as int));
            lemma_split_push(url@.take(i as int), c);
            assert(url@.take(i + 1) =~= url@.take(i as int).push(url@[i as int]));
        }
        if c == '/' {
            done.push(cur);
            cur = Vec::new();
        } else {
            cur.push(c);
        }
        i = i + 1;
    }
    proof {
        assert(url@.take(n as int) =~= url@);
    }
    done.push(cur);
    let ghost sp = split_slash(url@);
    assert(done@.len() == sp.len());
    assert(forall|k: int| 0 <= k < done@.len() ==> done@[k]@ == sp[k]);
    if done.len() < 2 {
        return Err(DateError::MissingArchiveDir);
    }
    if done.len() < 3 {
        return Err(DateError::MissingYearDir);
    }
    if done.len() < 4 {
        return Err(DateError::MissingFilename);
    }
    proof {
        reveal_strlit("Archive");
    }
    let base = &done[1];
    let base_ok = base.len() == 7 && *base.get(0).unwrap() == 'A' && *base.get(1).unwrap() == 'r'
        && *base.get(2).unwrap() == 'c' && *base.get(3).unwrap() == 'h' && *base.get(4).unwrap()
        == 'i' && *base.get(5).unwrap() == 'v' && *base.get(6).unwrap() == 'e';
    if !base_ok {
        assert(base@ != "Archive"@);
        return Err(DateError::BaseNotArchive);
    }
    assert(base@ =~= "Archive"@);
    let f = &done[3];
    if f.len() < 2 {
        return Err(DateError::BadYear);
    }
    let d0 = digit_val(*f.get(0).unwrap());
    let d1 = digit_val(*f.get(1).unwrap());
    let (y0, y1) = match (d0, d1) {
        (Some(a), Some(b)) => (a, b),
        _ => {
            return Err(DateError::BadYear);
        },
    };
    if f.len() < 4 {
        return Err(DateError::BadMonth);
    }
    let d2 = digit_val(*f.get(2).unwrap());
    let d3 = digit_val(*f.get(3).unwrap());
    let (m0, m1) = match (d2, d3) {
        (Some(a), Some(b)) => (a, b),
        _ => {
            return Err(DateError::BadMonth);
        },
    };
    let day: u8 = if f.len() >= 6 {
        let d4 = digit_val(*f.get(4).unwrap());
        let d5 = digit_val(*f.get(5).unwrap());
        match (d4, d5) {
            (Some(a), Some(b)) => 10 * a + b,
            _ => 1,
        }
    } else {
        1
    };
    let year: i32 = 2000 + (10 * (y0 as i32) + (y1 as i32));
    let month: u8 = 10 * m0 + m1;
    Ok(
        TalkDateTime {
            year,
            month,
            day,
            hour: 18,
            minute: 0,
            second: 0,
            utc_offset_secs: -28800,
        },
    )
}

} // verus!
