//! The critical lines of a panic log: the lines that name a sensor array,
//! an SMC panic, a missing sensor or a CPU panic, the sensor-array
//! snippets of one-line JSON reports, and the sensor bitmasks they print.
use crate::panic_diagnostic::{byte_window, byte_window_exec};
use crate::repair_wiki::{lemma_sensor_array_from, mask_head, mask_head_exec, next_sensor_match, sensor_array_matches, split_pieces, split_pieces_exec};
use crate::text::{append_str, byte_len, byte_len_below, char_is_digit, chars_eq, chars_of, contains_str, dec_text, dec_text_exec, hex_text, hex_text_exec, is_digit, lines, parse_u64, parse_u64_spec, push_unique, push_unique_exec, seq_contains, strings_of, slice_to_vec, split_lines, string_of, strs, to_lowercase, trim, trim_chars, unicode_lower, views};
use vstd::prelude::*;

verus! {

pub open spec fn has(l: Seq<char>, w: Seq<char>) -> bool {
    seq_contains(l, w)
}

/// A trimmed line (`lc` lowercased) that points at the failing hardware.
pub open spec fn critical_hit(line: Seq<char>, lc: Seq<char>) -> bool {
    ||| has(lc, "sensor array"@)
    ||| has(lc, "smc panic"@)
    ||| (has(lc, "smc"@) && has(lc, "assert"@))
    ||| has(lc, "bsc failure"@)
    ||| (has(lc, "outbox"@) && has(lc, "not ready"@))
    ||| has(lc, "missing sensor"@)
    ||| has(lc, "panic(cpu"@)
    ||| (has(lc, "panicstring"@) && (byte_len(line) < 2200 || has(lc, "smc"@) || has(lc, "sensor array"@)))
}

/// How a line of the log is kept, if it is: trimmed, and cut at 1200
/// characters when it is longer than 1200 bytes. Lines longer than 32000
/// bytes are dropped, and those longer than 12000 bytes unless they name a
/// sensor array, an SMC panic or a BSC failure.
pub open spec fn critical_display(raw: Seq<char>) -> Option<Seq<char>> {
    let line = trim(raw);
    let lc = unicode_lower(line);
    let bl = byte_len(line);
    if line.len() == 0 || bl > 32000 || (bl > 12000 && !(has(lc, "sensor array"@) || has(lc, "smc panic"@) || has(
        lc,
        "bsc failure"@,
    ))) || !critical_hit(line, lc) {
        None
    } else if bl > 1200 {
        Some((if line.len() <= 1200 { line } else { line.take(1200) }) + "\u{e2}\u{20ac}\u{a6} [ligne tronqu\u{c3}\u{a9}e]"@)
    } else {
        Some(line)
    }
}

/// The kept lines of `ls[..k]`, each once, at most 40.
pub open spec fn critical_from_lines(ls: Seq<Seq<char>>, k: nat) -> Seq<Seq<char>>
    decreases k,
{
    if k == 0 || k > ls.len() {
        Seq::empty()
    } else {
        let out = critical_from_lines(ls, (k - 1) as nat);
        if out.len() >= 40 {
            out
        } else {
            match critical_display(ls[k - 1]) {
                Some(d) => push_unique(out, d),
                None => out,
            }
        }
    }
}

pub open spec fn add_all(out: Seq<Seq<char>>, xs: Seq<Seq<char>>) -> Seq<Seq<char>>
    decreases xs.len(),
{
    if xs.len() == 0 {
        out
    } else {
        push_unique(add_all(out, xs.drop_last()), xs.last())
    }
}

/// `s` without its leading and trailing characters that are not ASCII
/// digits.
pub open spec fn digit_core(s: Seq<char>) -> Seq<char> {
    let a = first_digit(s, 0);
    if a >= s.len() {
        Seq::empty()
    } else {
        s.subrange(a, digits_end(s, s.len() as int))
    }
}

pub open spec fn first_digit(s: Seq<char>, i: int) -> int
    decreases s.len() - i,
{
    if 0 <= i < s.len() && !is_digit(s[i]) {
        first_digit(s, i + 1)
    } else {
        i
    }
}

pub open spec fn digits_end(s: Seq<char>, j: int) -> int
    decreases j,
{
    if 0 < j <= s.len() && !is_digit(s[j - 1]) {
        digits_end(s, j - 1)
    } else {
        j
    }
}

pub open spec fn bitmask_hint(v: u64) -> Seq<char> {
    "Sensor bitmask (extrait) : "@ + dec_text(v as nat) + " \u{e2}\u{2020}\u{2019} 0x"@ + hex_text(v as nat)
}

/// The hints of the non-zero numbers among `pieces`.
pub open spec fn hints_of_pieces(out: Seq<Seq<char>>, pieces: Seq<Seq<char>>) -> Seq<Seq<char>>
    decreases pieces.len(),
{
    if pieces.len() == 0 {
        out
    } else {
        let o = hints_of_pieces(out, pieces.drop_last());
        match parse_u64_spec(digit_core(pieces.last())) {
            Some(v) => if v > 0 {
                push_unique(o, bitmask_hint(v))
            } else {
                o
            },
            None => o,
        }
    }
}

pub open spec fn hints_of_fulls(out: Seq<Seq<char>>, fulls: Seq<Seq<char>>) -> Seq<Seq<char>>
    decreases fulls.len(),
{
    if fulls.len() == 0 {
        out
    } else {
        hints_of_pieces(hints_of_fulls(out, fulls.drop_last()), split_pieces(mask_head(fulls.last())))
    }
}

/// The lines of the window that name a sensor array and say ` is `.
pub open spec fn array_lines(ls: Seq<Seq<char>>) -> Seq<Seq<char>>
    decreases ls.len(),
{
    if ls.len() == 0 {
        Seq::empty()
    } else {
        let l = unicode_lower(ls.last());
        array_lines(ls.drop_last()) + if has(l, "sensor array"@) && has(l, " is "@) {
            seq![ls.last()]
        } else {
            Seq::<Seq<char>>::empty()
        }
    }
}

pub open spec fn trims(xs: Seq<Seq<char>>) -> Seq<Seq<char>> {
    xs.map_values(|x: Seq<char>| trim(x))
}

/// The critical lines of a log (its first 240000 bytes): the kept lines,
/// then the trimmed sensor-array snippets (up to 520 characters of their
/// line), then the hint of each non-zero number printed after ` is ` in a
/// snippet or a sensor-array line; each text once.
pub open spec fn critical_lines(log: Seq<char>) -> Seq<Seq<char>> {
    let window = byte_window(log, 240000);
    let ls = lines(window);
    let out1 = critical_from_lines(ls, ls.len());
    let snips = trims(sensor_array_matches(window, 0, 520));
    let out2 = add_all(out1, snips);
    hints_of_fulls(out2, snips + array_lines(ls))
}

fn critical_display_exec(raw: &[char]) -> (r: Option<Vec<char>>)
    ensures
        match r {
            Some(d) => critical_display(raw@) == Some(d@),
            None => critical_display(raw@) is None,
        },
{
    let line = trim_chars(raw);
    if line.len() == 0 {
        return None;
    }
    let ls = string_of(&line);
    let lc = to_lowercase(ls.as_str());
    let over32 = !byte_len_below(&line, 32001);
    let over12 = !byte_len_below(&line, 12001);
    if over32 || (over12 && !(contains_str(&lc, "sensor array") || contains_str(&lc, "smc panic") || contains_str(&lc, "bsc failure"))) {
        return None;
    }
    let hit = contains_str(&lc, "sensor array") || contains_str(&lc, "smc panic") || (contains_str(&lc, "smc") && contains_str(
        &lc,
        "assert",
    )) || contains_str(&lc, "bsc failure") || (contains_str(&lc, "outbox") && contains_str(&lc, "not ready")) || contains_str(
        &lc,
        "missing sensor",
    ) || contains_str(&lc, "panic(cpu") || (contains_str(&lc, "panicstring") && (byte_len_below(&line, 2200) || contains_str(
        &lc,
        "smc",
    ) || contains_str(&lc, "sensor array")));
    if !hit {
        return None;
    }
    if !byte_len_below(&line, 1201) {
        let mut cut = if line.len() <= 1200 {
            slice_to_vec(&line, 0, line.len())
        } else {
            slice_to_vec(&line, 0, 1200)
        };
        assert(line@.subrange(0, line.len() as int) =~= line@);
        append_str(&mut cut, "\u{e2}\u{20ac}\u{a6} [ligne tronqu\u{c3}\u{a9}e]");
        Some(cut)
    } else {
        Some(line)
    }
}

fn digit_core_exec(s: &[char]) -> (r: Vec<char>)
    ensures
        r@ == digit_core(s@),
{
    let mut a: usize = 0;
    while a < s.len() && !char_is_digit(s[a])
        invariant
            a <= s.len(),
            first_digit(s@, 0) == first_digit(s@, a as int),
        decreases s.len() - a,
    {
        a += 1;
    }
    if a >= s.len() {
        return Vec::new();
    }
    let mut b: usize = s.len();
    while b > 0 && !char_is_digit(s[b - 1])
        invariant
            a < s.len(),
            b <= s.len(),
            is_digit(s@[a as int]),
            a < b,
            digits_end(s@, s.len() as int) == digits_end(s@, b as int),
        decreases b,
    {
        b -= 1;
    }
    slice_to_vec(s, a, b)
}

fn hints_of_pieces_exec(out: &mut Vec<Vec<char>>, pieces: &Vec<Vec<char>>)
    ensures
        views(final(out)@) == hints_of_pieces(views(old(out)@), views(pieces@)),
{
    let ghost o0 = views(out@);
    let mut i: usize = 0;
    while i < pieces.len()
        invariant
            i <= pieces.len(),
            views(out@) == hints_of_pieces(o0, views(pieces@).take(i as int)),
        decreases pieces.len() - i,
    {
        assert(views(pieces@).take(i + 1).drop_last() =~= views(pieces@).take(i as int));
        assert(views(pieces@).take(i + 1).last() == pieces@[i as int]@);
        let core = digit_core_exec(&pieces[i]);
        match parse_u64(&core) {
            Some(v) => {
                if v > 0 {
                    let mut h = chars_of("Sensor bitmask (extrait) : ");
                    let d = dec_text_exec(v);
                    h.extend_from_slice(&d);
                    append_str(&mut h, " \u{e2}\u{2020}\u{2019} 0x");
                    let x = hex_text_exec(v);
                    h.extend_from_slice(&x);
                    assert(h@ =~= bitmask_hint(v));
                    push_unique_exec(out, h);
                }
            },
            None => {},
        }
        i += 1;
    }
    assert(views(pieces@).take(pieces.len() as int) =~= views(pieces@));
}

fn array_lines_exec(ls: &Vec<Vec<char>>) -> (r: Vec<Vec<char>>)
    ensures
        views(r@) == array_lines(views(ls@)),
{
    let mut out: Vec<Vec<char>> = Vec::new();
    let mut i: usize = 0;
    while i < ls.len()
        invariant
            i <= ls.len(),
            views(out@) == array_lines(views(ls@).take(i as int)),
        decreases ls.len() - i,
    {
        assert(views(ls@).take(i + 1).drop_last() =~= views(ls@).take(i as int));
        assert(views(ls@).take(i + 1).last() == ls@[i as int]@);
        let s = string_of(&ls[i]);
        let l = to_lowercase(s.as_str());
        let ghost before = views(out@);
        if contains_str(&l, "sensor array") && contains_str(&l, " is ") {
            out.push(slice_to_vec(&ls[i], 0, ls[i].len()));
            assert(ls@[i as int]@.subrange(0, ls@[i as int]@.len() as int) =~= ls@[i as int]@);
            assert(views(out@) =~= before + seq![ls@[i as int]@]);
        } else {
            assert(views(out@) =~= before + Seq::<Seq<char>>::empty());
        }
        i += 1;
    }
    assert(views(ls@).take(ls.len() as int) =~= views(ls@));
    out
}

fn kept_lines(ls: &Vec<Vec<char>>) -> (out: Vec<Vec<char>>)
    ensures
        views(out@) == critical_from_lines(views(ls@), ls@.len()),
{
    let ghost lv = views(ls@);
    let mut out: Vec<Vec<char>> = Vec::new();
    let mut i: usize = 0;
    assert(views(out@) =~= Seq::<Seq<char>>::empty());
    while i < ls.len()
        invariant
            i <= ls.len(),
            lv == views(ls@),
            views(out@) == critical_from_lines(lv, i as nat),
        decreases ls.len() - i,
    {
        assert(lv[i as int] == ls@[i as int]@);
        if out.len() < 40 {
            match critical_display_exec(&ls[i]) {
                Some(d) => push_unique_exec(&mut out, d),
                None => {},
            }
        }
        i += 1;
    }
    out
}

fn add_snippets(window: &Vec<char>, out: &mut Vec<Vec<char>>) -> (snips: Vec<Vec<char>>)
    ensures
        views(snips@) == trims(sensor_array_matches(window@, 0, 520)),
        views(final(out)@) == add_all(views(old(out)@), views(snips@)),
{
    let ghost out1 = views(out@);
    let mut snips: Vec<Vec<char>> = Vec::new();
    let mut pos: usize = 0;
    let ghost mut done: Seq<Seq<char>> = Seq::empty();
    assert(views(snips@) =~= trims(done));
    while pos <= window.len()
        invariant
            pos <= window.len(),
            done + sensor_array_matches(window@, pos as int, 520) == sensor_array_matches(window@, 0, 520),
            views(snips@) == trims(done),
            out1 == views(old(out)@),
            views(out@) == add_all(out1, trims(done)),
        decreases window.len() + 1 - pos,
    {
        match next_sensor_match(window, pos, 520) {
            None => {
                assert(sensor_array_matches(window@, pos as int, 520) =~= Seq::<Seq<char>>::empty());
                assert(done + Seq::<Seq<char>>::empty() =~= done);
                return snips;
            },
            Some((a, e)) => {
                let m = slice_to_vec(window, a, e);
                let t = trim_chars(&m);
                let ghost before = views(snips@);
                snips.push(slice_to_vec(&t, 0, t.len()));
                assert(t@.subrange(0, t.len() as int) =~= t@);
                push_unique_exec(out, t);
                proof {
                    let nd = done.push(m@);
                    assert(nd.drop_last() == done);
                    assert(trims(nd) =~= trims(done).push(trim(m@)));
                    assert(trims(nd).drop_last() =~= trims(done));
                    assert(views(snips@) =~= before.push(trim(m@)));
                    assert(done + sensor_array_matches(window@, pos as int, 520) =~= nd + sensor_array_matches(window@, e as int, 520));
                    done = nd;
                }
                pos = e;
            },
        }
    }
    snips
}

fn concat_lines(a: Vec<Vec<char>>, b: &Vec<Vec<char>>) -> (r: Vec<Vec<char>>)
    ensures
        views(r@) == views(a@) + views(b@),
{
    let ghost av = views(a@);
    let mut r = a;
    let mut k: usize = 0;
    while k < b.len()
        invariant
            k <= b.len(),
            views(r@) == av + views(b@).take(k as int),
        decreases b.len() - k,
    {
        let ghost before = views(r@);
        let x = slice_to_vec(&b[k], 0, b[k].len());
        assert(x@ =~= b@[k as int]@);
        r.push(x);
        assert(views(r@) =~= before.push(b@[k as int]@));
        assert(views(b@).take(k + 1) =~= views(b@).take(k as int).push(b@[k as int]@));
        k += 1;
    }
    assert(views(b@).take(b.len() as int) =~= views(b@));
    r
}

fn add_hints(out: &mut Vec<Vec<char>>, fulls: &Vec<Vec<char>>)
    ensures
        views(final(out)@) == hints_of_fulls(views(old(out)@), views(fulls@)),
{
    let ghost out2 = views(out@);
    let ghost fv = views(fulls@);
    let mut j: usize = 0;
    while j < fulls.len()
        invariant
            j <= fulls.len(),
            fv == views(fulls@),
            out2 == views(old(out)@),
            views(out@) == hints_of_fulls(out2, fv.take(j as int)),
        decreases fulls.len() - j,
    {
        assert(fv.take(j + 1).drop_last() =~= fv.take(j as int));
        assert(fv.take(j + 1).last() == fulls@[j as int]@);
        let head = mask_head_exec(&fulls[j]);
        let pieces = split_pieces_exec(&head);
        hints_of_pieces_exec(out, &pieces);
        j += 1;
    }
    assert(fv.take(fulls.len() as int) =~= fv);
}

/// The critical lines of a panic log (`critical_lines`).
pub fn extract_critical_signal_lines(log: &str) -> (r: Vec<String>)
    ensures
        strs(r@) == critical_lines(log@),
{
    let c = chars_of(log);
    let window = byte_window_exec(&c, 240000);
    let ls = split_lines(&window);
    let mut out = kept_lines(&ls);
    let snips = add_snippets(&window, &mut out);
    let al = array_lines_exec(&ls);
    let fulls = concat_lines(snips, &al);
    add_hints(&mut out, &fulls);
    strings_of(&out)
}

} // verus!
