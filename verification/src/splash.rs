//! Renders the landing page for a catalog as one text value: a fixed body,
//! then a list of the five most recent talks, then a list of the five most
//! recent transcripts, each entry carrying a long-form date label, a link
//! and the talk's title. Writing the text out is a consumer's concern.
use vstd::prelude::*;

use crate::dates::TalkDateTime;
use crate::scrape::{Talk, TalkInfo};

verus! {

pub open spec fn month_name(m: int) -> Seq<char> {
    if m == 1 {
        "January"@
    } else if m == 2 {
        "February"@
    } else if m == 3 {
        "March"@
    } else if m == 4 {
        "April"@
    } else if m == 5 {
        "May"@
    } else if m == 6 {
        "June"@
    } else if m == 7 {
        "July"@
    } else if m == 8 {
        "August"@
    } else if m == 9 {
        "September"@
    } else if m == 10 {
        "October"@
    } else if m == 11 {
        "November"@
    } else if m == 12 {
        "December"@
    } else {
        "?"@
    }
}

pub open spec fn digit_char(v: int) -> char {
    (48 + v) as char
}

/// The day of month padded with a space to two places, as a long-form date
/// writes it; a day beyond two digits is shown as a placeholder.
pub open spec fn day_label(d: int) -> Seq<char> {
    if 0 <= d < 10 {
        seq![' ', digit_char(d)]
    } else if d <= 99 {
        seq![digit_char(d / 10), digit_char(d % 10)]
    } else {
        "?"@
    }
}

/// The year in four digits; a year outside the four-digit range is shown as
/// a placeholder.
pub open spec fn year_label(y: int) -> Seq<char> {
    if 0 <= y <= 9999 {
        seq![
            digit_char(y / 1000 % 10),
            digit_char(y / 100 % 10),
            digit_char(y / 10 % 10),
            digit_char(y % 10),
        ]
    } else {
        "?"@
    }
}

/// The long-form date label of an entry: full month name, space-padded day,
/// four-digit year.
pub open spec fn long_date_label(d: TalkDateTime) -> Seq<char> {
    month_name(d.month as int) + " "@ + day_label(d.day as int) + ", "@ + year_label(d.year as int)
}

/// One list entry: its date label, a link to the target under the talks
/// root, and the talk's title.
pub open spec fn entry_line(link: Seq<char>, d: TalkDateTime, title: Seq<char>) -> Seq<char> {
    "            <li>"@ + long_date_label(d) + " — <a href=\""@ + crate::feed::talks_root() + link
        + "\">"@ + title + "</a></li>\n"@
}

/// The entries of the recent-talks list: one per talk, in catalog order.
pub open spec fn recent_entries(ts: Seq<Talk>) -> Seq<Seq<char>> {
    Seq::new(ts.len(), |i: int| entry_line(ts[i].mp3@, ts[i].date, ts[i].title@))
}

/// The entries of the transcripts list: one per talk that has a transcript,
/// in catalog order, linking to the transcript.
pub open spec fn trans_entries(ts: Seq<Talk>) -> Seq<Seq<char>>
    decreases ts.len(),
{
    if ts.len() == 0 {
        Seq::empty()
    } else {
        (if ts[0].transcript is Some {
            seq![entry_line(ts[0].transcript->0@, ts[0].date, ts[0].title@)]
        } else {
            Seq::empty()
        }) + trans_entries(ts.drop_first())
    }
}

pub open spec fn joined(entries: Seq<Seq<char>>) -> Seq<char>
    decreases entries.len(),
{
    if entries.len() == 0 {
        Seq::empty()
    } else {
        entries[0] + joined(entries.drop_first())
    }
}

/// A rendered list: at most the first five entries between the list tags.
pub open spec fn list_block(entries: Seq<Seq<char>>) -> Seq<char> {
    "        <ul>\n"@ + joined(
        entries.take(
            if entries.len() < 5 {
                entries.len() as int
            } else {
                5
            },
        ),
    ) + "        </ul>\n"@
}

pub proof fn lemma_joined_push(entries: Seq<Seq<char>>, x: Seq<char>)
    ensures
        joined(entries.push(x)) == joined(entries) + x,
    decreases entries.len(),
{
    if entries.len() == 0 {
        let p = entries.push(x);
        assert(p.drop_first() =~= Seq::<Seq<char>>::empty());
        assert(p[0] == x);
        assert(joined(p.drop_first()) =~= Seq::<char>::empty());
        assert(joined(entries) =~= Seq::<char>::empty());
        assert(joined(entries.push(x)) =~= joined(entries) + x);
    } else {
        lemma_joined_push(entries.drop_first(), x);
        assert(entries.push(x)[0] == entries[0]);
        assert(entries.push(x).drop_first() =~= entries.drop_first().push(x));
        assert(joined(entries.push(x)) =~= joined(entries) + x);
    }
}

/// The transcript entries of a catalog split at any index into those of the
/// prefix followed by those of the rest.
pub proof fn lemma_trans_entries_split(ts: Seq<Talk>, i: int)
    requires
        0 <= i <= ts.len(),
    ensures
        trans_entries(ts) == trans_entries(ts.take(i)) + trans_entries(ts.skip(i)),
    decreases i,
{
    if i == 0 {
        assert(ts.take(0) =~= Seq::<Talk>::empty());
        assert(ts.skip(0) =~= ts);
        assert(trans_entries(ts) =~~= trans_entries(ts.take(0)) + trans_entries(ts.skip(0)));
    } else {
        lemma_trans_entries_split(ts.drop_first(), i - 1);
        assert(ts.take(i)[0] == ts[0]);
        assert(ts.take(i).drop_first() =~= ts.drop_first().take(i - 1));
        assert(ts.skip(i) =~= ts.drop_first().skip(i - 1));
        assert(trans_entries(ts) =~~= trans_entries(ts.take(i)) + trans_entries(ts.skip(i)));
    }
}

fn push_digit(page: &mut String, v: u8)
    requires
        v <= 9,
    ensures
        final(page)@ == old(page)@ + seq![digit_char(v as int)],
{
    let s: &str = match v {
        0 => "0",
        1 => "1",
        2 => "2",
        3 => "3",
        4 => "4",
        5 => "5",
        6 => "6",
        7 => "7",
        8 => "8",
        _ => "9",
    };
    proof {
        reveal_strlit("0");
        reveal_strlit("1");
        reveal_strlit("2");
        reveal_strlit("3");
        reveal_strlit("4");
        reveal_strlit("5");
        reveal_strlit("6");
        reveal_strlit("7");
        reveal_strlit("8");
        reveal_strlit("9");
        assert(s@ =~= seq![digit_char(v as int)]);
    }
    page.append(s);
}

fn append_date_label(page: &mut String, d: &TalkDateTime)
    ensures
        final(page)@ == old(page)@ + long_date_label(*d),
{
    let m: &str = match d.month {
        1 => "January",
        2 => "February",
        3 => "March",
        4 => "April",
        5 => "May",
        6 => "June",
        7 => "July",
        8 => "August",
        9 => "September",
        10 => "October",
        11 => "November",
        12 => "December",
        _ => "?",
    };
    assert(m@ == month_name(d.month as int));
    page.append(m);
    page.append(" ");
    if d.day < 10 {
        page.append(" ");
        push_digit(page, d.day);
    } else if d.day <= 99 {
        push_digit(page, d.day / 10);
        push_digit(page, d.day % 10);
    } else {
        page.append("?");
    }
    proof {
        reveal_strlit(" ");
    }
    page.append(", ");
    if 0 <= d.year && d.year <= 9999 {
        push_digit(page, (d.year / 1000 % 10) as u8);
        push_digit(page, (d.year / 100 % 10) as u8);
        push_digit(page, (d.year / 10 % 10) as u8);
        push_digit(page, (d.year % 10) as u8);
    } else {
        page.append("?");
    }
    assert(final(page)@ =~= old(page)@ + long_date_label(*d));
}

fn append_entry(page: &mut String, link: &String, d: &TalkDateTime, title: &String)
    ensures
        final(page)@ == old(page)@ + entry_line(link@, *d, title@),
{
    page.append("            <li>");
    append_date_label(page, d);
    page.append(" — <a href=\"");
    page.append("https://www.dhammatalks.org");
    page.append(link.as_str());
    page.append("\">");
    page.append(title.as_str());
    page.append("</a></li>\n");
    assert(final(page)@ =~= old(page)@ + entry_line(link@, *d, title@));
}

fn append_recent_list(page: &mut String, talks: &Vec<Talk>)
    ensures
        final(page)@ == old(page)@ + list_block(recent_entries(talks@)),
{
    page.append("        <ul>\n");
    let limit: usize = if talks.len() < 5 {
        talks.len()
    } else {
        5
    };
    let mut i: usize = 0;
    while i < limit
        invariant
            i <= limit,
            limit <= talks@.len(),
            limit == if talks@.len() < 5 {
                talks@.len() as int
            } else {
                5
            },
            page@ == old(page)@ + "        <ul>\n"@ + joined(
                recent_entries(talks@).take(i as int),
            ),
        decreases limit - i,
    {
        let t = &talks[i];
        proof {
            let entries = recent_entries(talks@);
            lemma_joined_push(entries.take(i as int), entries[i as int]);
            assert(entries.take(i + 1) =~= entries.take(i as int).push(entries[i as int]));
        }
        append_entry(page, &t.mp3, &t.date, &t.title);
        i = i + 1;
    }
    page.append("        </ul>\n");
    assert(final(page)@ =~= old(page)@ + list_block(recent_entries(talks@)));
}

fn append_trans_list(page: &mut String, talks: &Vec<Talk>)
    ensures
        final(page)@ == old(page)@ + list_block(trans_entries(talks@)),
{
    page.append("        <ul>\n");
    let mut count: usize = 0;
    let mut i: usize = 0;
    while i < talks.len() && count < 5
        invariant
            i <= talks@.len(),
            count <= 5,
            count == trans_entries(talks@.take(i as int)).len(),
            page@ == old(page)@ + "        <ul>\n"@ + joined(trans_entries(talks@.take(i as int))),
        decreases talks@.len() - i,
    {
        let t = &talks[i];
        proof {
            lemma_trans_entries_split(talks@.take(i + 1), i as int);
            assert(talks@.take(i + 1).take(i as int) =~= talks@.take(i as int));
            assert(talks@.take(i + 1).skip(i as int) =~= seq![talks@[i as int]]);
            let one = seq![talks@[i as int]];
            assert(one.drop_first() =~= Seq::<Talk>::empty());
            assert(trans_entries(one.drop_first()) =~= Seq::<Seq<char>>::empty());
        }
        match &t.transcript {
            Some(link) => {
                proof {
                    let pre = trans_entries(talks@.take(i as int));
                    let entry = entry_line(
                        talks@[i as int].transcript->0@,
                        talks@[i as int].date,
                        talks@[i as int].title@,
                    );
                    let one = seq![talks@[i as int]];
                    assert(trans_entries(one.drop_first()) =~= Seq::<Seq<char>>::empty());
                    assert(trans_entries(one) =~~= seq![entry]);
                    assert(trans_entries(talks@.take(i + 1)) =~~= pre.push(entry));
                    lemma_joined_push(pre, entry);
                }
                append_entry(page, link, &t.date, &t.title);
                count = count + 1;
            },
            None => {
                proof {
                    let one = seq![talks@[i as int]];
                    assert(trans_entries(one.drop_first()) =~= Seq::<Seq<char>>::empty());
                    assert(trans_entries(one) =~~= Seq::<Seq<char>>::empty());
                    assert(trans_entries(talks@.take(i + 1)) =~~= trans_entries(
                        talks@.take(i as int),
                    ));
                }
            },
        }
        i = i + 1;
    }
    proof {
        let all = trans_entries(talks@);
        let pre = trans_entries(talks@.take(i as int));
        lemma_trans_entries_split(talks@, i as int);
        if i == talks@.len() {
            assert(talks@.take(i as int) =~= talks@);
            assert(all.take(
                if all.len() < 5 {
                    all.len() as int
                } else {
                    5
                },
            ) =~= all);
        } else {
            assert(count == 5);
            assert(all.len() >= pre.len());
            assert(all.take(5) =~= pre);
        }
    }
    page.append("        </ul>\n");
    assert(final(page)@ =~= old(page)@ + list_block(trans_entries(talks@)));
}

/// Renders the whole landing page for a catalog: the fixed body, the
/// recent-talks list, and the recent-transcripts list.
pub fn create_index(info: &TalkInfo) -> (page: String)
    ensures
        page@ == index_page(*info),
{
    let mut page = String::from_str(main_body_text());
    page.append("        <h2>Recent Talks</h2>\n");
    append_recent_list(&mut page, &info.talks);
    page.append("        <h2>Recent Transcripts</h2>\n");
    append_trans_list(&mut page, &info.talks);
    page.append("\n    </body>\n</html>\n");
    assert(page@ =~= index_page(*info));
    page
}

/// The whole landing page of a catalog.
pub open spec fn index_page(info: TalkInfo) -> Seq<char> {
    main_body() + "        <h2>Recent Talks</h2>\n"@ + list_block(recent_entries(info.talks@))
        + "        <h2>Recent Transcripts</h2>\n"@ + list_block(trans_entries(info.talks@))
        + "\n    </body>\n</html>\n"@
}

/// The fixed opening of the page, up to where the lists begin.
pub open spec fn main_body() -> Seq<char> {
    r##"<html>
    <head>
        <meta charset="UTF-8">
        <title>Dhammatalks.org Evening Talk Backup Podcast Feed</title>
        <link rel="stylesheet" href="main.css" /> 
    </head>
    <body>
        <h1>Dhammatalks.org Evening Talk Backup Podcast Feed</h1>
        <p>
            An alternative/backup feed of the <a href="https://www.dhammatalks.org/mp3_index_current.html">evening talks</a> 
            from <a href="https://www.dhammatalks.org/">dhammatalks.org</a>.
        </p>
        <p>
            <a href="dhammatalks-evening.xml">
                <svg xmlns="http://www.w3.org/2000/svg" xmlns:xlink="http://www.w3.org/1999/xlink" aria-hidden="true" focusable="false" width="0.86em" height="1em" style="-ms-transform: rotate(360deg); -webkit-transform: rotate(360deg); transform: rotate(360deg);" preserveAspectRatio="xMidYMid meet" viewBox="0 0 1536 1792"><path d="M994 1192q0 86-17 197q-31 215-55 313q-22 90-152 90t-152-90q-24-98-55-313q-17-110-17-197q0-168 224-168t224 168zm542-424q0 240-134 434t-350 280q-8 3-15-3t-6-15q7-48 10-66q4-32 6-47q1-9 9-12q159-81 255.5-234t96.5-337q0-180-91-330.5T1070 203t-337-74q-124 7-237 61T302.5 330.5t-128 202T128 773q1 184 99 336.5T484 1341q7 3 9 12q3 21 6 45q1 9 5 32.5t6 35.5q1 9-6.5 15t-15.5 2q-148-58-261-169.5t-173.5-264T1 730q7-143 66-273.5t154.5-227T446.5 72T719 2q164-10 315.5 46.5t261 160.5t175 250.5T1536 768zm-542-32q0 93-65.5 158.5T770 960t-158.5-65.5T546 736t65.5-158.5T770 512t158.5 65.5T994 736zm288 32q0 122-53.5 228.5T1082 1174q-8 6-16 2t-10-14q-6-52-29-92q-7-10 3-20q58-54 91-127t33-155q0-111-58.5-204T938 422.5T726 386q-133 15-229 113T388 730q-10 92 23.5 176t98.5 144q10 10 3 20q-24 41-29 93q-2 9-10 13t-16-2q-95-74-148.5-183T258 757q3-131 69-244t177-181.5T745 257q144-7 268 60t196.5 187.5T1282 768z"/><rect x="0" y="0" width="1536" height="1792" fill="rgba(0, 0, 0, 0)" /></svg>
                Evening Talks Podcast Feed
            </a>
        </p>
        <img src="dt_art.jpeg" />
"##@
}

fn main_body_text() -> (r: &'static str)
    ensures
        r@ == main_body(),
{
    r##"<html>
    <head>
        <meta charset="UTF-8">
        <title>Dhammatalks.org Evening Talk Backup Podcast Feed</title>
        <link rel="stylesheet" href="main.css" /> 
    </head>
    <body>
        <h1>Dhammatalks.org Evening Talk Backup Podcast Feed</h1>
        <p>
            An alternative/backup feed of the <a href="https://www.dhammatalks.org/mp3_index_current.html">evening talks</a> 
            from <a href="https://www.dhammatalks.org/">dhammatalks.org</a>.
        </p>
        <p>
            <a href="dhammatalks-evening.xml">
                <svg xmlns="http://www.w3.org/2000/svg" xmlns:xlink="http://www.w3.org/1999/xlink" aria-hidden="true" focusable="false" width="0.86em" height="1em" style="-ms-transform: rotate(360deg); -webkit-transform: rotate(360deg); transform: rotate(360deg);" preserveAspectRatio="xMidYMid meet" viewBox="0 0 1536 1792"><path d="M994 1192q0 86-17 197q-31 215-55 313q-22 90-152 90t-152-90q-24-98-55-313q-17-110-17-197q0-168 224-168t224 168zm542-424q0 240-134 434t-350 280q-8 3-15-3t-6-15q7-48 10-66q4-32 6-47q1-9 9-12q159-81 255.5-234t96.5-337q0-180-91-330.5T1070 203t-337-74q-124 7-237 61T302.5 330.5t-128 202T128 773q1 184 99 336.5T484 1341q7 3 9 12q3 21 6 45q1 9 5 32.5t6 35.5q1 9-6.5 15t-15.5 2q-148-58-261-169.5t-173.5-264T1 730q7-143 66-273.5t154.5-227T446.5 72T719 2q164-10 315.5 46.5t261 160.5t175 250.5T1536 768zm-542-32q0 93-65.5 158.5T770 960t-158.5-65.5T546 736t65.5-158.5T770 512t158.5 65.5T994 736zm288 32q0 122-53.5 228.5T1082 1174q-8 6-16 2t-10-14q-6-52-29-92q-7-10 3-20q58-54 91-127t33-155q0-111-58.5-204T938 422.5T726 386q-133 15-229 113T388 730q-10 92 23.5 176t98.5 144q10 10 3 20q-24 41-29 93q-2 9-10 13t-16-2q-95-74-148.5-183T258 757q3-131 69-244t177-181.5T745 257q144-7 268 60t196.5 187.5T1282 768z"/><rect x="0" y="0" width="1536" height="1792" fill="rgba(0, 0, 0, 0)" /></svg>
                Evening Talks Podcast Feed
            </a>
        </p>
        <img src="dt_art.jpeg" />
"##
}

} // verus!
