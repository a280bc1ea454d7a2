//! The board on which correlation rules write what they find: causes with a
//! weight, kept at the highest weight pushed for each name, and the set of
//! checks to run.
use crate::text::{chars_eq, chars_of, push_unique, strs};
use vstd::prelude::*;

verus! {

/// Causes and checks found so far. A weight is in thousandths (0.92 is 920).
pub struct CauseBoard {
    pub causes: Vec<(String, u32)>,
    pub checks: Vec<String>,
}

/// A board and the lines shown so far, as plain values.
#[verifier::ext_equal]
pub struct BoardView {
    pub causes: Seq<(Seq<char>, u32)>,
    pub checks: Seq<Seq<char>>,
    pub ui: Seq<Seq<char>>,
}

pub open spec fn cause_views(v: Seq<(String, u32)>) -> Seq<(Seq<char>, u32)> {
    v.map_values(|p: (String, u32)| (p.0@, p.1))
}

pub open spec fn board_view(b: CauseBoard, ui: Seq<String>) -> BoardView {
    BoardView { causes: cause_views(b.causes@), checks: strs(b.checks@), ui: strs(ui) }
}

/// The first index at or after `i` of the cause named `n`.
pub open spec fn cause_index(s: Seq<(Seq<char>, u32)>, n: Seq<char>, i: int) -> Option<int>
    decreases s.len() - i,
{
    if i < 0 || i >= s.len() {
        None
    } else if s[i].0 == n {
        Some(i)
    } else {
        cause_index(s, n, i + 1)
    }
}

pub open spec fn max_u32(a: u32, b: u32) -> u32 {
    if a >= b {
        a
    } else {
        b
    }
}

/// `s` after pushing cause `n` with weight `w`: the weight of a known name
/// rises to `w` when `w` is higher; a new name comes last.
pub open spec fn cause_pushed(s: Seq<(Seq<char>, u32)>, n: Seq<char>, w: u32) -> Seq<(Seq<char>, u32)> {
    match cause_index(s, n, 0) {
        Some(i) => s.update(i, (n, max_u32(s[i].1, w))),
        None => s.push((n, w)),
    }
}

pub open spec fn push_cause_s(b: BoardView, n: Seq<char>, w: u32) -> BoardView {
    BoardView { causes: cause_pushed(b.causes, n, w), ..b }
}

pub open spec fn add_check_s(b: BoardView, c: Seq<char>) -> BoardView {
    BoardView { checks: push_unique(b.checks, c), ..b }
}

pub open spec fn add_ui_s(b: BoardView, l: Seq<char>) -> BoardView {
    BoardView { ui: b.ui.push(l), ..b }
}

/// The weight recorded for `n`, if any.
pub open spec fn weight_of(s: Seq<(Seq<char>, u32)>, n: Seq<char>) -> Option<u32> {
    match cause_index(s, n, 0) {
        Some(i) => Some(s[i].1),
        None => None,
    }
}

/// Every name occurs once.
pub open spec fn names_unique(s: Seq<(Seq<char>, u32)>) -> bool {
    forall|i: int, j: int| 0 <= i < j < s.len() ==> s[i].0 != s[j].0
}

proof fn lemma_cause_index(s: Seq<(Seq<char>, u32)>, n: Seq<char>, i: int)
    requires
        0 <= i,
    ensures
        cause_index(s, n, i) matches Some(k) ==> i <= k < s.len() && s[k].0 == n
            && forall|j: int| i <= j < k ==> s[j].0 != n,
        cause_index(s, n, i) is None ==> forall|j: int| i <= j < s.len() ==> s[j].0 != n,
    decreases s.len() - i,
{
    if i < s.len() && s[i].0 != n {
        lemma_cause_index(s, n, i + 1);
    }
}

proof fn lemma_cause_index_unique(s: Seq<(Seq<char>, u32)>, n: Seq<char>, k: int)
    requires
        names_unique(s),
        0 <= k < s.len(),
        s[k].0 == n,
    ensures
        cause_index(s, n, 0) == Some(k),
{
    lemma_cause_index(s, n, 0);
    match cause_index(s, n, 0) {
        Some(j) => {
            if j != k {
                assert(s[j].0 == s[k].0);
            }
        },
        None => {},
    }
}

/// Pushing a cause keeps every name once; the pushed name then weighs the
/// highest of its former weight and the pushed one, and every other name
/// keeps its weight.
pub proof fn law_push_cause_keeps_max(s: Seq<(Seq<char>, u32)>, n: Seq<char>, w: u32, m: Seq<char>)
    requires
        names_unique(s),
    ensures
        names_unique(cause_pushed(s, n, w)),
        weight_of(cause_pushed(s, n, w), n) == Some(
            match weight_of(s, n) {
                Some(old) => max_u32(old, w),
                None => w,
            },
        ),
        m != n ==> weight_of(cause_pushed(s, n, w), m) == weight_of(s, m),
{
    lemma_cause_index(s, n, 0);
    lemma_cause_index(s, m, 0);
    let t = cause_pushed(s, n, w);
    match cause_index(s, n, 0) {
        Some(i) => {
            assert(t.len() == s.len());
            assert forall|a: int, b: int| 0 <= a < b < t.len() implies t[a].0 != t[b].0 by {
                assert(t[a].0 == s[a].0 && t[b].0 == s[b].0);
            }
            lemma_cause_index_unique(t, n, i);
            if m != n {
                match cause_index(s, m, 0) {
                    Some(k) => {
                        assert(t[k].0 == m);
                        lemma_cause_index_unique(t, m, k);
                    },
                    None => {
                        lemma_cause_index(t, m, 0);
                        assert forall|j: int| 0 <= j < t.len() implies t[j].0 != m by {
                            assert(t[j].0 == s[j].0);
                        }
                        if cause_index(t, m, 0) is Some {
                            let k = cause_index(t, m, 0).unwrap();
                            assert(t[k].0 == m);
                        }
                    },
                }
            }
        },
        None => {
            assert(t.len() == s.len() + 1);
            assert forall|a: int, b: int| 0 <= a < b < t.len() implies t[a].0 != t[b].0 by {
                if b == s.len() {
                    assert(t[a].0 == s[a].0);
                } else {
                    assert(t[a].0 == s[a].0 && t[b].0 == s[b].0);
                }
            }
            lemma_cause_index_unique(t, n, s.len() as int);
            if m != n {
                match cause_index(s, m, 0) {
                    Some(k) => {
                        assert(t[k].0 == m);
                        lemma_cause_index_unique(t, m, k);
                    },
                    None => {
                        lemma_cause_index(t, m, 0);
                        if cause_index(t, m, 0) is Some {
                            let k = cause_index(t, m, 0).unwrap();
                            assert(t[k].0 == m);
                            if k < s.len() {
                                assert(t[k].0 == s[k].0);
                            }
                        }
                    },
                }
            }
        },
    }
}

impl CauseBoard {
    pub fn new() -> (r: CauseBoard)
        ensures
            r.causes@.len() == 0,
            r.checks@.len() == 0,
    {
        CauseBoard { causes: Vec::new(), checks: Vec::new() }
    }

    /// Records cause `name` with weight `w` (the highest weight wins).
    pub fn push_cause(&mut self, name: &str, w: u32)
        ensures
            cause_views(final(self).causes@) == cause_pushed(cause_views(old(self).causes@), name@, w),
            final(self).checks@ == old(self).checks@,
    {
        let n = chars_of(name);
        let ghost s = cause_views(self.causes@);
        let mut i: usize = 0;
        while i < self.causes.len()
            invariant
                i <= self.causes.len(),
                s == cause_views(self.causes@),
                self.causes@ == old(self).causes@,
                self.checks@ == old(self).checks@,
                n@ == name@,
                cause_index(s, name@, 0) == cause_index(s, name@, i as int),
            decreases self.causes.len() - i,
        {
            let c = chars_of(self.causes[i].0.as_str());
            if chars_eq(&c, &n) {
                assert(s[i as int].0 == name@);
                let old_w = self.causes[i].1;
                let nw = if old_w >= w { old_w } else { w };
                let nm = self.causes[i].0.clone();
                self.causes.set(i, (nm, nw));
                assert(cause_views(self.causes@) =~= s.update(i as int, (name@, max_u32(s[i as int].1, w))));
                return;
            }
            i += 1;
        }
        self.causes.push((name.to_string(), w));
        assert(cause_views(self.causes@) =~= s.push((name@, w)));
    }

    /// Adds check `c` unless the set already holds it.
    pub fn add_check(&mut self, c: String)
        ensures
            strs(final(self).checks@) == push_unique(strs(old(self).checks@), c@),
            final(self).causes@ == old(self).causes@,
    {
        let cc = chars_of(c.as_str());
        let mut i: usize = 0;
        while i < self.checks.len()
            invariant
                i <= self.checks.len(),
                self.checks@ == old(self).checks@,
                self.causes@ == old(self).causes@,
                cc@ == c@,
                forall|j: int| 0 <= j < i ==> strs(self.checks@)[j] != c@,
            decreases self.checks.len() - i,
        {
            let x = chars_of(self.checks[i].as_str());
            if chars_eq(&x, &cc) {
                assert(strs(self.checks@)[i as int] == c@);
                return;
            }
            i += 1;
        }
        let ghost before = strs(self.checks@);
        assert(!before.contains(c@));
        self.checks.push(c);
        assert(strs(self.checks@) =~= before.push(c@));
    }
}

proof fn lemma_first_index(t: Seq<(Seq<char>, u32)>, m: Seq<char>, k: int)
    requires
        0 <= k < t.len(),
        t[k].0 == m,
        forall|j: int| 0 <= j < k ==> t[j].0 != m,
    ensures
        cause_index(t, m, 0) == Some(k),
{
    lemma_cause_index(t, m, 0);
}

proof fn lemma_no_index(t: Seq<(Seq<char>, u32)>, m: Seq<char>)
    requires
        forall|j: int| 0 <= j < t.len() ==> t[j].0 != m,
    ensures
        cause_index(t, m, 0) is None,
{
    lemma_cause_index(t, m, 0);
    if cause_index(t, m, 0) is Some {
        let k = cause_index(t, m, 0).unwrap();
        assert(t[k].0 == m);
    }
}

/// The weight of `m` after pushing `n` with weight `w`: for `n`, the highest
/// of its former weight and `w`; any other name keeps its weight.
pub proof fn lemma_weight_after_push(s: Seq<(Seq<char>, u32)>, n: Seq<char>, w: u32, m: Seq<char>)
    ensures
        weight_of(cause_pushed(s, n, w), m) == (if m == n {
            Some(
                match weight_of(s, n) {
                    Some(old) => max_u32(old, w),
                    None => w,
                },
            )
        } else {
            weight_of(s, m)
        }),
{
    lemma_cause_index(s, n, 0);
    lemma_cause_index(s, m, 0);
    let t = cause_pushed(s, n, w);
    match cause_index(s, m, 0) {
        Some(k) => {
            assert(t[k].0 == m);
            assert forall|j: int| 0 <= j < k implies t[j].0 != m by {
                assert(t[j].0 == s[j].0);
            }
            lemma_first_index(t, m, k);
        },
        None => {
            if m == n {
                lemma_first_index(t, m, s.len() as int);
            } else {
                assert forall|j: int| 0 <= j < t.len() implies t[j].0 != m by {
                    if j < s.len() {
                        assert(t[j].0 == s[j].0);
                    }
                }
                lemma_no_index(t, m);
            }
        },
    }
}

/// A weight before and after: a name that was there keeps at least its
/// weight; a name that comes in comes with a positive weight.
pub open spec fn weight_kept(before: Option<u32>, after: Option<u32>) -> bool {
    match before {
        Some(w0) => after matches Some(w1) && w1 >= w0,
        None => after matches Some(w1) ==> w1 > 0,
    }
}

/// `b` keeps every cause of `a` at a weight no lower, gives each cause that
/// `a` lacks a positive weight, and keeps every check of `a`.
pub open spec fn board_grows(a: BoardView, b: BoardView) -> bool {
    &&& forall|n: Seq<char>| #![trigger weight_of(b.causes, n)] weight_kept(weight_of(a.causes, n), weight_of(b.causes, n))
    &&& forall|c: Seq<char>| #![trigger b.checks.contains(c)] a.checks.contains(c) ==> b.checks.contains(c)
}

pub broadcast proof fn lemma_grows_refl(a: BoardView)
    ensures
        #[trigger] board_grows(a, a),
{
}

pub broadcast proof fn lemma_grows_push(a: BoardView, b: BoardView, n: Seq<char>, w: u32)
    requires
        board_grows(a, b),
        w > 0,
    ensures
        #[trigger] board_grows(a, push_cause_s(b, n, w)),
{
    let t = push_cause_s(b, n, w);
    assert forall|m: Seq<char>| #![trigger weight_of(t.causes, m)] weight_kept(weight_of(a.causes, m), weight_of(t.causes, m)) by {
        lemma_weight_after_push(b.causes, n, w, m);
        assert(weight_kept(weight_of(a.causes, m), weight_of(b.causes, m)));
    }
}

proof fn lemma_push_unique_keeps(acc: Seq<Seq<char>>, x: Seq<char>, c: Seq<char>)
    ensures
        acc.contains(c) ==> push_unique(acc, x).contains(c),
{
    if acc.contains(c) && !acc.contains(x) {
        let i = choose|i: int| 0 <= i < acc.len() && acc[i] == c;
        assert(acc.push(x)[i] == c);
    }
}

pub broadcast proof fn lemma_grows_check(a: BoardView, b: BoardView, c: Seq<char>)
    requires
        board_grows(a, b),
    ensures
        #[trigger] board_grows(a, add_check_s(b, c)),
{
    let t = add_check_s(b, c);
    assert forall|x: Seq<char>| #![trigger t.checks.contains(x)] a.checks.contains(x) implies t.checks.contains(x) by {
        assert(b.checks.contains(x));
        lemma_push_unique_keeps(b.checks, c, x);
    }
}

pub broadcast proof fn lemma_grows_ui(a: BoardView, b: BoardView, l: Seq<char>)
    requires
        board_grows(a, b),
    ensures
        #[trigger] board_grows(a, add_ui_s(b, l)),
{
}

pub broadcast group group_board_grows {
    lemma_grows_refl,
    lemma_grows_push,
    lemma_grows_check,
    lemma_grows_ui,
}

} // verus!
