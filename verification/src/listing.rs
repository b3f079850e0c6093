//! What `list` shows: the profile names in ascending order, and for each
//! name its label, its usage (or the unavailable usage) and the warning
//! of a query that failed or did not finish.
use vstd::prelude::*;
use crate::report::{label_text, profile_label, query_warning, warning_text};
use crate::text::{chars_of, str_eq};
use crate::usage::Usage;
use crate::format::DASH;

verus! {

/// `a` comes no later than `b` in the order of `String`'s `Ord`: character
/// by character, a prefix first.
pub open spec fn text_le(a: Seq<char>, b: Seq<char>) -> bool
    decreases a.len(),
{
    if a.len() == 0 {
        true
    } else if b.len() == 0 {
        false
    } else if a[0] != b[0] {
        a[0] < b[0]
    } else {
        text_le(a.drop_first(), b.drop_first())
    }
}

/// Of two texts, one comes no later than the other.
pub proof fn lemma_text_le_total(a: Seq<char>, b: Seq<char>)
    ensures
        text_le(a, b) || text_le(b, a),
    decreases a.len(),
{
    if a.len() > 0 && b.len() > 0 && a[0] == b[0] {
        lemma_text_le_total(a.drop_first(), b.drop_first());
    }
}

/// The order of texts is transitive.
pub proof fn lemma_text_le_trans(a: Seq<char>, b: Seq<char>, c: Seq<char>)
    requires
        text_le(a, b),
        text_le(b, c),
    ensures
        text_le(a, c),
    decreases a.len(),
{
    if a.len() > 0 && b.len() > 0 && c.len() > 0 && a[0] == b[0] && b[0] == c[0] {
        lemma_text_le_trans(a.drop_first(), b.drop_first(), c.drop_first());
    }
}

/// The order of names is that of `String`'s `Ord`: a text comes strictly
/// before every longer text that begins with it; where two texts first
/// differ, the one with the smaller character there comes strictly first;
/// and two texts each no later than the other are the same text.
pub proof fn law_text_order(a: Seq<char>, b: Seq<char>, s: Seq<char>, k: int)
    ensures
        text_le(a, a),
        s.len() > 0 ==> text_le(a, a + s) && !text_le(a + s, a),
        (0 <= k < a.len() && k < b.len() && a.take(k) == b.take(k) && a[k] < b[k]) ==> text_le(a, b)
            && !text_le(b, a),
        text_le(a, b) && text_le(b, a) ==> a == b,
    decreases a.len(),
{
    if a.len() > 0 {
        let a1 = a.drop_first();
        law_text_order(a1, a1, s, 0);
        assert((a + s).drop_first() =~= a1 + s);
        assert((a + s)[0] == a[0]);
        if 0 < k < a.len() && k < b.len() && a.take(k) == b.take(k) && a[k] < b[k] {
            assert(a[0] == a.take(k)[0]);
            assert(b[0] == b.take(k)[0]);
            assert(a1.take(k - 1) =~= a.take(k).drop_first());
            assert(b.drop_first().take(k - 1) =~= b.take(k).drop_first());
            law_text_order(a1, b.drop_first(), s, k - 1);
        }
        if b.len() > 0 && a[0] == b[0] {
            law_text_order(a1, b.drop_first(), s, 0);
            if text_le(a, b) && text_le(b, a) {
                assert(a =~= seq![a[0]] + a1);
                assert(b =~= seq![b[0]] + b.drop_first());
            }
        }
    } else {
        if text_le(b, a) {
            assert(b.len() == 0);
            assert(a =~= b);
        }
    }
}

/// Whether `a` comes no later than `b`.
fn text_le_exec(a: &str, b: &str) -> (r: bool)
    ensures
        r == text_le(a@, b@),
{
    let av = chars_of(a);
    let bv = chars_of(b);
    let mut i: usize = 0;
    assert(av@.skip(0) == a@);
    assert(bv@.skip(0) == b@);
    while i < av.len() && i < bv.len() && av[i] == bv[i]
        invariant
            av@ == a@,
            bv@ == b@,
            i <= av@.len(),
            i <= bv@.len(),
            text_le(a@, b@) == text_le(a@.skip(i as int), b@.skip(i as int)),
        decreases av@.len() - i,
    {
        assert(a@.skip(i as int).drop_first() == a@.skip(i + 1));
        assert(b@.skip(i as int).drop_first() == b@.skip(i + 1));
        i = i + 1;
    }
    if i == av.len() {
        true
    } else if i == bv.len() {
        false
    } else {
        assert(a@.skip(i as int)[0] == a@[i as int]);
        assert(b@.skip(i as int)[0] == b@[i as int]);
        av[i] < bv[i]
    }
}

/// Names in ascending order.
pub open spec fn texts_sorted(s: Seq<String>) -> bool {
    forall|p: int, q: int| 0 <= p <= q < s.len() ==> text_le(#[trigger] s[p]@, #[trigger] s[q]@)
}

/// The names in ascending order (as `sort_unstable` orders `String`s).
pub fn sort_names(names: Vec<String>) -> (r: Vec<String>)
    ensures
        texts_sorted(r@),
        r@.to_multiset() == names@.to_multiset(),
{
    let mut rest = names;
    let ghost all = rest@;
    let mut out: Vec<String> = Vec::new();
    assert(all.take(0) =~= Seq::<String>::empty());
    while rest.len() > 0
        invariant
            texts_sorted(out@),
            all.len() == out@.len() + rest@.len(),
            rest@ == all.skip(out@.len() as int),
            out@.to_multiset() == all.take(out@.len() as int).to_multiset(),
        decreases rest@.len(),
    {
        let ghost n = out@.len() as int;
        let name = rest.remove(0);
        assert(name == all[n]);
        assert(all.take(n + 1) == all.take(n).push(name));
        assert(rest@ == all.skip(n + 1));
        let mut k = out.len();
        while k > 0 && !text_le_exec(out[k - 1].as_str(), name.as_str())
            invariant
                k <= out@.len(),
                forall|j: int| k <= j < out@.len() ==> !text_le(#[trigger] out@[j]@, name@),
            decreases k,
        {
            k = k - 1;
        }
        let ghost before = out@;
        proof {
            vstd::seq_lib::to_multiset_insert(before, k as int, name);
            vstd::seq_lib::to_multiset_build(all.take(n), name);
        }
        out.insert(k, name);
        proof {
            assert forall|p: int, q: int| 0 <= p <= q < out@.len() implies text_le(
                #[trigger] out@[p]@,
                #[trigger] out@[q]@,
            ) by {
                if p == q {
                    lemma_text_le_total(out@[p]@, out@[q]@);
                } else if q == k as int {
                    assert(out@[p] == before[p]);
                    if p < k - 1 {
                        lemma_text_le_trans(before[p]@, before[k - 1]@, name@);
                    }
                } else if p == k as int {
                    assert(out@[q] == before[q - 1]);
                    lemma_text_le_total(before[k as int]@, name@);
                    if q - 1 > k {
                        lemma_text_le_trans(name@, before[k as int]@, before[q - 1]@);
                    }
                } else if p < k as int && q > k as int {
                    assert(out@[p] == before[p]);
                    assert(out@[q] == before[q - 1]);
                } else if q < k as int {
                    assert(out@[p] == before[p]);
                    assert(out@[q] == before[q]);
                } else {
                    assert(out@[p] == before[p - 1]);
                    assert(out@[q] == before[q - 1]);
                }
            }
        }
    }
    assert(all.take(all.len() as int) == all);
    out
}

/// A row of `list`: the profile's name and label, whether it is the active
/// profile, the usage shown for it, and the error of its query, if it
/// failed or did not finish.
pub struct ListRow {
    pub name: String,
    pub label: String,
    pub active: bool,
    pub usage: Usage,
    pub error: Option<String>,
}

/// The usage shown for a profile whose query gave nothing: a dash for the
/// plan and nothing else.
pub open spec fn unavailable_usage(u: Usage) -> bool {
    &&& u.plan@ == DASH@
    &&& u.five_hours is None
    &&& u.weekly is None
    &&& u.lifetime_tokens is None
    &&& u.peak_daily_tokens is None
    &&& u.longest_running_turn_sec is None
    &&& u.current_streak_days is None
    &&& u.longest_streak_days is None
    &&& u.daily_usage@.len() == 0
    &&& !u.daily_usage_available
    &&& u.reset_credits is None
}

/// The error of a query: its message when it failed, that it did not
/// finish when there is no result, none when it succeeded.
pub open spec fn query_error(result: Option<Result<Usage, String>>) -> Option<Seq<char>> {
    match result {
        Some(Ok(_)) => None,
        Some(Err(e)) => Some(e@),
        None => Some("usage query did not finish"@),
    }
}

/// Row `i` of `list` for the name and the query result at `i`.
pub open spec fn row_of(
    row: ListRow,
    name: String,
    active: Option<Seq<char>>,
    result: Option<Result<Usage, String>>,
) -> bool {
    &&& row.name@ == name@
    &&& row.label@ == label_text(name@, active)
    &&& row.active == (active == Some(name@))
    &&& match result {
        Some(Ok(u)) => row.usage == u,
        _ => unavailable_usage(row.usage),
    }
    &&& match (row.error, query_error(result)) {
        (Some(a), Some(b)) => a@ == b,
        (None, None) => true,
        _ => false,
    }
}

/// The rows of `list`: one per name, in the order of the names, each with
/// the result of its profile's query (`None` for a query that did not
/// finish).
pub fn list_rows(
    names: &Vec<String>,
    active: Option<&str>,
    results: Vec<Option<Result<Usage, String>>>,
) -> (r: Vec<ListRow>)
    requires
        results@.len() == names@.len(),
    ensures
        r@.len() == names@.len(),
        forall|i: int|
            0 <= i < names@.len() ==> row_of(
                #[trigger] r@[i],
                names@[i],
                match active {
                    Some(a) => Some(a@),
                    None => None,
                },
                results@[i],
            ),
{
    let ghost act = match active {
        Some(a) => Some(a@),
        None => None,
    };
    let ghost all = results@;
    let mut rest = results;
    let mut out: Vec<ListRow> = Vec::new();
    let mut i: usize = 0;
    while i < names.len()
        invariant
            i <= names@.len(),
            all.len() == names@.len(),
            rest@ == all.skip(i as int),
            out@.len() == i,
            act == match active {
                Some(a) => Some(a@),
                None => None,
            },
            forall|j: int| 0 <= j < i ==> row_of(#[trigger] out@[j], names@[j], act, all[j]),
        decreases names@.len() - i,
    {
        let result = rest.remove(0);
        assert(result == all[i as int]);
        assert(rest@ == all.skip(i + 1));
        let name = names[i].as_str();
        let is_active = match active {
            Some(a) => str_eq(a, name),
            None => false,
        };
        let label = profile_label(name, active);
        let (usage, error) = match result {
            Some(Ok(u)) => (u, None),
            Some(Err(e)) => (Usage::unavailable(), Some(e)),
            None => (Usage::unavailable(), Some(String::from_str("usage query did not finish"))),
        };
        out.push(ListRow { name: names[i].clone(), label, active: is_active, usage, error });
        i = i + 1;
    }
    out
}

/// The warnings of `list`, in the order of the rows: one for each row
/// whose query failed or did not finish.
pub open spec fn warnings_of(rows: Seq<ListRow>, n: int) -> Seq<Seq<char>>
    decreases n,
{
    if n <= 0 {
        Seq::empty()
    } else {
        let w = warnings_of(rows, n - 1);
        match rows[n - 1].error {
            Some(e) => w.push(warning_text(rows[n - 1].name@, Some(e@))),
            None => w,
        }
    }
}

/// The warnings printed after the table.
pub fn list_warnings(rows: &Vec<ListRow>) -> (r: Vec<String>)
    ensures
        r@.len() == warnings_of(rows@, rows@.len() as int).len(),
        forall|i: int| 0 <= i < r@.len() ==> #[trigger] r@[i]@ == warnings_of(rows@, rows@.len() as int)[i],
{
    let mut out: Vec<String> = Vec::new();
    let mut i: usize = 0;
    while i < rows.len()
        invariant
            i <= rows@.len(),
            out@.len() == warnings_of(rows@, i as int).len(),
            forall|j: int| 0 <= j < out@.len() ==> #[trigger] out@[j]@ == warnings_of(rows@, i as int)[j],
        decreases rows@.len() - i,
    {
        match &rows[i].error {
            Some(e) => {
                out.push(query_warning(rows[i].name.as_str(), Some(e.as_str())));
            },
            None => {},
        }
        i = i + 1;
    }
    out
}

} // verus!
