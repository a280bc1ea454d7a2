//! Contacts read from a device backup, written out as vCard 3.0.
use crate::text::{append_str, chars_of, eq_str, join, join_exec, lines, string_of, trim, trim_chars, opt_view, views};
use vstd::prelude::*;

verus! {

pub struct ContactsExportResult {
    pub count: u32,
    pub dest_path: String,
}

/// A person of the address book.
pub struct Person {
    pub row_id: i64,
    pub first: Option<String>,
    pub last: Option<String>,
    pub organization: Option<String>,
    pub department: Option<String>,
    pub job_title: Option<String>,
    pub note: Option<String>,
}

/// A phone number (property 3), e-mail (4) or URL (5) of a person, with its
/// label.
pub struct MultiValue {
    pub property: i64,
    pub value: String,
    pub label: Option<String>,
}

/// How a character is written in a vCard value.
pub open spec fn vcard_char(c: char) -> Seq<char> {
    if c == '\\' {
        seq!['\\', '\\']
    } else if c == ',' {
        seq!['\\', ',']
    } else if c == ';' {
        seq!['\\', ';']
    } else if c == '\n' {
        seq!['\\', 'n']
    } else {
        seq![c]
    }
}

/// A value escaped for a vCard: backslash, comma, semicolon and line feed
/// each preceded by a backslash (the line feed written `\n`).
pub open spec fn vcard_escaped(s: Seq<char>) -> Seq<char>
    decreases s.len(),
{
    if s.len() == 0 {
        Seq::empty()
    } else {
        vcard_escaped(s.drop_last()) + vcard_char(s.last())
    }
}

fn escape_chars(s: &[char]) -> (r: Vec<char>)
    ensures
        r@ == vcard_escaped(s@),
{
    let mut r: Vec<char> = Vec::new();
    let mut i: usize = 0;
    while i < s.len()
        invariant
            i <= s.len(),
            r@ == vcard_escaped(s@.take(i as int)),
        decreases s.len() - i,
    {
        assert(s@.take(i + 1).drop_last() == s@.take(i as int));
        let c = s[i];
        let ghost before = r@;
        if c == '\\' {
            r.push('\\');
            r.push('\\');
        } else if c == ',' {
            r.push('\\');
            r.push(',');
        } else if c == ';' {
            r.push('\\');
            r.push(';');
        } else if c == '\n' {
            r.push('\\');
            r.push('n');
        } else {
            r.push(c);
        }
        assert(r@ =~= before + vcard_char(c));
        i += 1;
    }
    assert(s@.take(s.len() as int) == s@);
    r
}

pub fn escape_vcard(s: &str) -> (r: String)
    ensures
        r@ == vcard_escaped(s@),
{
    let c = chars_of(s);
    let e = escape_chars(&c);
    string_of(&e)
}

pub open spec fn text_or_empty(o: Option<String>) -> Seq<char> {
    match o {
        Some(s) => s@,
        None => Seq::empty(),
    }
}

/// A field given and not blank.
pub open spec fn filled(o: Option<String>) -> bool {
    o is Some && trim(o.unwrap()@).len() > 0
}

pub open spec fn phone_type(label: Option<String>) -> Seq<char> {
    match label {
        Some(l) => if l@ == "_$!<Mobile>!$_"@ {
            "CELL"@
        } else if l@ == "_$!<Home>!$_"@ {
            "HOME"@
        } else if l@ == "_$!<Work>!$_"@ {
            "WORK"@
        } else {
            "VOICE"@
        },
        None => "VOICE"@,
    }
}

pub open spec fn email_type(label: Option<String>) -> Seq<char> {
    match label {
        Some(l) => if l@ == "_$!<Home>!$_"@ {
            "HOME"@
        } else if l@ == "_$!<Work>!$_"@ {
            "WORK"@
        } else {
            "INTERNET"@
        },
        None => "INTERNET"@,
    }
}

/// The vCard line of a multi-value, if its property is written.
pub open spec fn multi_value_lines(mv: MultiValue) -> Seq<Seq<char>> {
    if mv.property == 3 {
        seq!["TEL;TYPE="@ + phone_type(mv.label) + seq![':'] + vcard_escaped(mv.value@)]
    } else if mv.property == 4 {
        seq!["EMAIL;TYPE="@ + email_type(mv.label) + seq![':'] + vcard_escaped(mv.value@)]
    } else if mv.property == 5 {
        seq!["URL:"@ + vcard_escaped(mv.value@)]
    } else {
        Seq::empty()
    }
}

pub open spec fn multi_values_lines(mvs: Seq<MultiValue>) -> Seq<Seq<char>>
    decreases mvs.len(),
{
    if mvs.len() == 0 {
        Seq::empty()
    } else {
        multi_values_lines(mvs.drop_last()) + multi_value_lines(mvs.last())
    }
}

pub open spec fn full_name(p: Person) -> Seq<char> {
    trim(text_or_empty(p.first) + seq![' '] + text_or_empty(p.last))
}

/// The lines of the vCard of a person.
pub open spec fn vcard_lines(p: Person, mvs: Seq<MultiValue>) -> Seq<Seq<char>> {
    let fname = full_name(p);
    seq!["BEGIN:VCARD"@, "VERSION:3.0"@] + seq![
        if fname.len() == 0 {
            match p.organization {
                Some(o) => "FN:"@ + vcard_escaped(o@),
                None => "FN:Inconnu"@,
            }
        } else {
            "FN:"@ + vcard_escaped(fname)
        },
    ] + seq![
        "N:"@ + vcard_escaped(text_or_empty(p.last)) + seq![';'] + vcard_escaped(text_or_empty(p.first))
            + ";;;"@,
    ] + (if filled(p.organization) {
        seq![
            "ORG:"@ + vcard_escaped(p.organization.unwrap()@) + seq![';'] + vcard_escaped(
                text_or_empty(p.department),
            ),
        ]
    } else {
        Seq::empty()
    }) + (if filled(p.job_title) {
        seq!["TITLE:"@ + vcard_escaped(p.job_title.unwrap()@)]
    } else {
        Seq::empty()
    }) + multi_values_lines(mvs) + (if filled(p.note) {
        seq!["NOTE:"@ + vcard_escaped(p.note.unwrap()@)]
    } else {
        Seq::empty()
    }) + seq!["END:VCARD"@]
}

/// The vCard of a person: its lines, each ended by CR LF.
pub open spec fn vcard_text(p: Person, mvs: Seq<MultiValue>) -> Seq<char> {
    join(vcard_lines(p, mvs), "\r\n"@) + "\r\n"@
}

fn opt_chars_or_empty(o: &Option<String>) -> (r: Vec<char>)
    ensures
        r@ == text_or_empty(*o),
{
    match o {
        Some(s) => chars_of(s.as_str()),
        None => Vec::new(),
    }
}

fn filled_exec(o: &Option<String>) -> (r: bool)
    ensures
        r == filled(*o),
{
    match o {
        Some(s) => {
            let c = chars_of(s.as_str());
            trim_chars(&c).len() > 0
        },
        None => false,
    }
}

fn line_of(prefix: &str, body: &[char]) -> (r: Vec<char>)
    ensures
        r@ == prefix@ + body@,
{
    let mut l = chars_of(prefix);
    l.extend_from_slice(body);
    l
}

fn label_is(label: &Option<String>, lit: &str) -> (r: bool)
    ensures
        r == (label is Some && label.unwrap()@ == lit@),
{
    match label {
        Some(l) => {
            let c = chars_of(l.as_str());
            eq_str(&c, lit)
        },
        None => false,
    }
}

fn multi_value_line(mv: &MultiValue, out: &mut Vec<Vec<char>>)
    ensures
        views(final(out)@) == views(old(out)@) + multi_value_lines(*mv),
{
    let ghost before = views(out@);
    let vc = chars_of(mv.value.as_str());
    let ev = escape_chars(&vc);
    if mv.property == 3 {
        let t = if label_is(&mv.label, "_$!<Mobile>!$_") {
            "CELL"
        } else if label_is(&mv.label, "_$!<Home>!$_") {
            "HOME"
        } else if label_is(&mv.label, "_$!<Work>!$_") {
            "WORK"
        } else {
            "VOICE"
        };
        assert(t@ == phone_type(mv.label));
        let mut l = chars_of("TEL;TYPE=");
        append_str(&mut l, t);
        l.push(':');
        l.extend_from_slice(&ev);
        assert(l@ =~= "TEL;TYPE="@ + phone_type(mv.label) + seq![':'] + vcard_escaped(mv.value@));
        out.push(l);
        assert(views(out@) =~= before + multi_value_lines(*mv));
    } else if mv.property == 4 {
        let t = if label_is(&mv.label, "_$!<Home>!$_") {
            "HOME"
        } else if label_is(&mv.label, "_$!<Work>!$_") {
            "WORK"
        } else {
            "INTERNET"
        };
        assert(t@ == email_type(mv.label));
        let mut l = chars_of("EMAIL;TYPE=");
        append_str(&mut l, t);
        l.push(':');
        l.extend_from_slice(&ev);
        assert(l@ =~= "EMAIL;TYPE="@ + email_type(mv.label) + seq![':'] + vcard_escaped(mv.value@));
        out.push(l);
        assert(views(out@) =~= before + multi_value_lines(*mv));
    } else if mv.property == 5 {
        out.push(line_of("URL:", &ev));
        assert(views(out@) =~= before + multi_value_lines(*mv));
    } else {
        assert(views(out@) =~= before + Seq::<Seq<char>>::empty());
    }
}

fn push_line(out: &mut Vec<Vec<char>>, l: Vec<char>)
    ensures
        views(final(out)@) == views(old(out)@) + seq![l@],
{
    let ghost before = views(out@);
    out.push(l);
    assert(views(out@) =~= before + seq![l@]);
}

/// The vCard 3.0 text of a person and its multi-values.
pub fn build_vcard(person: &Person, multi_values: &[MultiValue]) -> (r: String)
    ensures
        r@ == vcard_text(*person, multi_values@),
{
    let mut lines: Vec<Vec<char>> = Vec::new();
    assert(views(lines@) =~= Seq::<Seq<char>>::empty());
    push_line(&mut lines, chars_of("BEGIN:VCARD"));
    push_line(&mut lines, chars_of("VERSION:3.0"));
    let first = opt_chars_or_empty(&person.first);
    let last = opt_chars_or_empty(&person.last);
    let mut fl = first.clone();
    assert(fl@ == first@);
    fl.push(' ');
    fl.extend_from_slice(&last);
    let full = trim_chars(&fl);
    assert(fl@ =~= text_or_empty(person.first) + seq![' '] + text_or_empty(person.last));
    assert(full@ == full_name(*person));
    let ghost l0 = views(lines@);
    assert(l0 =~= seq!["BEGIN:VCARD"@, "VERSION:3.0"@]);
    if full.len() == 0 {
        match &person.organization {
            Some(org) => {
                let oc = chars_of(org.as_str());
                push_line(&mut lines, line_of("FN:", &escape_chars(&oc)));
            },
            None => push_line(&mut lines, chars_of("FN:Inconnu")),
        }
    } else {
        push_line(&mut lines, line_of("FN:", &escape_chars(&full)));
    }
    let ghost l1 = views(lines@);
    assert(l1 =~= l0 + seq![
        if full_name(*person).len() == 0 {
            match person.organization {
                Some(o) => "FN:"@ + vcard_escaped(o@),
                None => "FN:Inconnu"@,
            }
        } else {
            "FN:"@ + vcard_escaped(full_name(*person))
        },
    ]);
    let mut n = chars_of("N:");
    n.extend_from_slice(&escape_chars(&last));
    n.push(';');
    n.extend_from_slice(&escape_chars(&first));
    append_str(&mut n, ";;;");
    assert(n@ =~= "N:"@ + vcard_escaped(text_or_empty(person.last)) + seq![';'] + vcard_escaped(
        text_or_empty(person.first),
    ) + ";;;"@);
    push_line(&mut lines, n);
    let ghost l2 = views(lines@);
    if filled_exec(&person.organization) {
        match &person.organization {
            Some(org) => {
                let oc = chars_of(org.as_str());
                let mut l = line_of("ORG:", &escape_chars(&oc));
                l.push(';');
                let dept = opt_chars_or_empty(&person.department);
                l.extend_from_slice(&escape_chars(&dept));
                assert(l@ =~= "ORG:"@ + vcard_escaped(org@) + seq![';'] + vcard_escaped(text_or_empty(person.department)));
                push_line(&mut lines, l);
            },
            None => {},
        }
    }
    let ghost l3 = views(lines@);
    assert(l3 =~= l2 + (if filled(person.organization) {
        seq![
            "ORG:"@ + vcard_escaped(person.organization.unwrap()@) + seq![';'] + vcard_escaped(
                text_or_empty(person.department),
            ),
        ]
    } else {
        Seq::empty()
    }));
    if filled_exec(&person.job_title) {
        match &person.job_title {
            Some(t) => {
                let tc = chars_of(t.as_str());
                push_line(&mut lines, line_of("TITLE:", &escape_chars(&tc)));
            },
            None => {},
        }
    }
    let ghost before_mv = views(lines@);
    assert(before_mv =~= l3 + (if filled(person.job_title) {
        seq!["TITLE:"@ + vcard_escaped(person.job_title.unwrap()@)]
    } else {
        Seq::empty()
    }));
    let mut i: usize = 0;
    while i < multi_values.len()
        invariant
            i <= multi_values.len(),
            views(lines@) == before_mv + multi_values_lines(multi_values@.take(i as int)),
        decreases multi_values.len() - i,
    {
        assert(multi_values@.take(i + 1).drop_last() == multi_values@.take(i as int));
        multi_value_line(&multi_values[i], &mut lines);
        i += 1;
    }
    assert(multi_values@.take(multi_values.len() as int) == multi_values@);
    let ghost l4 = views(lines@);
    if filled_exec(&person.note) {
        match &person.note {
            Some(t) => {
                let tc = chars_of(t.as_str());
                push_line(&mut lines, line_of("NOTE:", &escape_chars(&tc)));
            },
            None => {},
        }
    }
    let ghost l5 = views(lines@);
    assert(l5 =~= l4 + (if filled(person.note) {
        seq!["NOTE:"@ + vcard_escaped(person.note.unwrap()@)]
    } else {
        Seq::empty()
    }));
    push_line(&mut lines, chars_of("END:VCARD"));
    assert(views(lines@) =~= vcard_lines(*person, multi_values@));
    let sep = chars_of("\r\n");
    let mut text = join_exec(&lines, &sep);
    append_str(&mut text, "\r\n");
    string_of(&text)
}

/// A phone number is written as a `TEL` line whose type is the one the
/// address-book label names: `_$!<Home>!$_` gives `HOME`, `_$!<Work>!$_`
/// gives `WORK`, `_$!<Mobile>!$_` gives `CELL`; any other label, or none,
/// gives `VOICE`. An e-mail address is written as an `EMAIL` line typed
/// `HOME` or `WORK` the same way, else `INTERNET`.
pub proof fn law_label_gives_its_vcard_type(mv: MultiValue)
    ensures
        mv.property == 3 && opt_view(mv.label) == Some("_$!<Home>!$_"@) ==> multi_value_lines(mv) == seq![
            "TEL;TYPE=HOME:"@ + vcard_escaped(mv.value@),
        ],
        mv.property == 3 && opt_view(mv.label) == Some("_$!<Work>!$_"@) ==> multi_value_lines(mv) == seq![
            "TEL;TYPE=WORK:"@ + vcard_escaped(mv.value@),
        ],
        mv.property == 3 && opt_view(mv.label) == Some("_$!<Mobile>!$_"@) ==> multi_value_lines(mv) == seq![
            "TEL;TYPE=CELL:"@ + vcard_escaped(mv.value@),
        ],
        mv.property == 3 && opt_view(mv.label) != Some("_$!<Home>!$_"@) && opt_view(mv.label) != Some(
            "_$!<Work>!$_"@,
        ) && opt_view(mv.label) != Some("_$!<Mobile>!$_"@) ==> multi_value_lines(mv) == seq!["TEL;TYPE=VOICE:"@ + vcard_escaped(mv.value@)],
        mv.property == 4 && opt_view(mv.label) == Some("_$!<Home>!$_"@) ==> multi_value_lines(mv) == seq![
            "EMAIL;TYPE=HOME:"@ + vcard_escaped(mv.value@),
        ],
        mv.property == 4 && opt_view(mv.label) == Some("_$!<Work>!$_"@) ==> multi_value_lines(mv) == seq![
            "EMAIL;TYPE=WORK:"@ + vcard_escaped(mv.value@),
        ],
        mv.property == 4 && opt_view(mv.label) != Some("_$!<Home>!$_"@) && opt_view(mv.label) != Some(
            "_$!<Work>!$_"@,
        )
            ==> multi_value_lines(mv) == seq!["EMAIL;TYPE=INTERNET:"@ + vcard_escaped(mv.value@)],
        mv.property == 5 ==> multi_value_lines(mv) == seq!["URL:"@ + vcard_escaped(mv.value@)],
        mv.property != 3 && mv.property != 4 && mv.property != 5 ==> multi_value_lines(mv).len() == 0,
{
    reveal_strlit("_$!<Home>!$_");
    reveal_strlit("_$!<Work>!$_");
    reveal_strlit("_$!<Mobile>!$_");
    reveal_strlit("TEL;TYPE=");
    reveal_strlit("TEL;TYPE=HOME:");
    reveal_strlit("TEL;TYPE=WORK:");
    reveal_strlit("TEL;TYPE=CELL:");
    reveal_strlit("TEL;TYPE=VOICE:");
    reveal_strlit("EMAIL;TYPE=");
    reveal_strlit("EMAIL;TYPE=HOME:");
    reveal_strlit("EMAIL;TYPE=WORK:");
    reveal_strlit("EMAIL;TYPE=INTERNET:");
    reveal_strlit("HOME");
    reveal_strlit("WORK");
    reveal_strlit("CELL");
    reveal_strlit("VOICE");
    reveal_strlit("INTERNET");
    assert("TEL;TYPE="@ + "HOME"@ + seq![':'] =~= "TEL;TYPE=HOME:"@);
    assert("TEL;TYPE="@ + "WORK"@ + seq![':'] =~= "TEL;TYPE=WORK:"@);
    assert("TEL;TYPE="@ + "CELL"@ + seq![':'] =~= "TEL;TYPE=CELL:"@);
    assert("TEL;TYPE="@ + "VOICE"@ + seq![':'] =~= "TEL;TYPE=VOICE:"@);
    assert("EMAIL;TYPE="@ + "HOME"@ + seq![':'] =~= "EMAIL;TYPE=HOME:"@);
    assert("EMAIL;TYPE="@ + "WORK"@ + seq![':'] =~= "EMAIL;TYPE=WORK:"@);
    assert("EMAIL;TYPE="@ + "INTERNET"@ + seq![':'] =~= "EMAIL;TYPE=INTERNET:"@);
    assert("_$!<Home>!$_"@.len() != "_$!<Mobile>!$_"@.len());
    assert("_$!<Work>!$_"@.len() != "_$!<Mobile>!$_"@.len());
    assert("_$!<Work>!$_"@[4] != "_$!<Home>!$_"@[4]);
    assert("_$!<Work>!$_"@ != "_$!<Home>!$_"@);
}

} // verus!
