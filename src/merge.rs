//! Merging a fresh rendering with the previous output: hand-edited manual sections
//! survive regeneration.
use vstd::prelude::*;
use crate::text::{at, chars_of, find_from, first_at, is_at, lemma_assoc, push_all, run_end, same, slice, text_of};

verus! {

/// Characters of a section identifier: lower-case hex digits and `-`.
pub open spec fn id_char(c: char) -> bool {
    let u = c as u32;
    (0x30 <= u && u <= 0x39) || (0x61 <= u && u <= 0x66) || u == 0x2d
}

pub open spec fn section_head() -> Seq<char> {
    "MANUAL SECTION: "@
}

pub open spec fn section_end() -> Seq<char> {
    "MANUAL SECTION END"@
}

/// The manual section that starts at `i`: the header, a non-empty identifier, then
/// everything up to the first end marker. Where the identifier ends, and the end.
pub open spec fn section_at(t: Seq<char>, i: int) -> Option<(int, int)> {
    let a = i + 16;
    let ie = run_end(t, a, |c: char| id_char(c));
    let q = first_at(t, section_end(), ie);
    if at(t, i, section_head()) && a < ie && q >= 0 {
        Some((ie, q + 18))
    } else {
        None
    }
}

/// The first manual section from `j` on whose identifier is `id`: its start and end.
pub open spec fn find_section(t: Seq<char>, id: Seq<char>, j: int) -> Option<(int, int)>
    decreases t.len() - j,
{
    if j < 0 || j >= t.len() {
        None
    } else {
        match section_at(t, j) {
            Some((ie, end)) => if t.subrange(j + 16, ie) == id {
                Some((j, end))
            } else {
                find_section(t, id, j + 1)
            },
            None => find_section(t, id, j + 1),
        }
    }
}

/// `fresh` from `i` on, each manual section replaced by the section with the same
/// identifier in `old` when there is one.
pub open spec fn merged_from(fresh: Seq<char>, old: Seq<char>, i: int) -> Seq<char>
    decreases fresh.len() - i,
{
    if i < 0 || i >= fresh.len() {
        seq![]
    } else {
        match section_at(fresh, i) {
            Some((ie, end)) => if i < end <= fresh.len() {
                (match find_section(old, fresh.subrange(i + 16, ie), 0) {
                    Some((s, e)) => old.subrange(s, e),
                    None => fresh.subrange(i, end),
                }) + merged_from(fresh, old, end)
            } else {
                seq![]
            },
            None => seq![fresh[i]] + merged_from(fresh, old, i + 1),
        }
    }
}

pub open spec fn merged(fresh: Seq<char>, old: Seq<char>) -> Seq<char> {
    merged_from(fresh, old, 0)
}

fn is_id(c: char) -> (r: bool)
    ensures
        r == id_char(c),
{
    let u = c as u32;
    (0x30 <= u && u <= 0x39) || (0x61 <= u && u <= 0x66) || u == 0x2d
}

fn skip_id(t: &Vec<char>, i: usize) -> (r: usize)
    requires
        i <= t.len(),
    ensures
        r == run_end(t@, i as int, |c: char| id_char(c)),
        i <= r <= t.len(),
{
    let mut k: usize = i;
    while k < t.len() && is_id(t[k])
        invariant
            i <= k <= t.len(),
            run_end(t@, i as int, |c: char| id_char(c)) == run_end(
                t@,
                k as int,
                |c: char| id_char(c),
            ),
        decreases t.len() - k,
    {
        k = k + 1;
    }
    k
}

fn section_at_pos(t: &Vec<char>, i: usize, head: &Vec<char>, tail: &Vec<char>) -> (r: Option<
    (usize, usize),
>)
    requires
        i < t.len(),
        head@ == section_head(),
        tail@ == section_end(),
        head@.len() == 16,
        tail@.len() == 18,
    ensures
        match section_at(t@, i as int) {
            Some((ie, end)) => r == Some((ie as usize, end as usize)) && i + 16 < ie < end
                <= t.len(),
            None => r is None,
        },
{
    if !is_at(t, i, head) {
        return None;
    }
    let a = i + 16;
    let ie = skip_id(t, a);
    if !(a < ie) {
        return None;
    }
    match find_from(t, tail, ie) {
        Some(q) => Some((ie, q + 18)),
        None => None,
    }
}

fn find_section_in(t: &Vec<char>, id: &Vec<char>, head: &Vec<char>, tail: &Vec<char>) -> (r:
    Option<(usize, usize)>)
    requires
        head@ == section_head(),
        tail@ == section_end(),
        head@.len() == 16,
        tail@.len() == 18,
    ensures
        match find_section(t@, id@, 0) {
            Some((s, e)) => r == Some((s as usize, e as usize)) && 0 <= s <= e <= t.len(),
            None => r is None,
        },
{
    let mut j: usize = 0;
    while j < t.len()
        invariant
            j <= t.len(),
            head@ == section_head(),
            tail@ == section_end(),
            head@.len() == 16,
            tail@.len() == 18,
            find_section(t@, id@, 0) == find_section(t@, id@, j as int),
        decreases t.len() - j,
    {
        match section_at_pos(t, j, head, tail) {
            Some((ie, end)) => {
                if same(&slice(t, j + 16, ie), id) {
                    return Some((j, end));
                }
            },
            None => {},
        }
        j = j + 1;
    }
    None
}

/// `fresh` with each manual section replaced by the section with the same identifier
/// in `old`, where `old` has one.
pub fn merge_with_manual_sections(rendered: &str, old_gen: &str) -> (r: String)
    ensures
        r@ == merged(rendered@, old_gen@),
{
    let t = chars_of(rendered);
    let old = chars_of(old_gen);
    let head = chars_of("MANUAL SECTION: ");
    let tail = chars_of("MANUAL SECTION END");
    proof {
        reveal_strlit("MANUAL SECTION: ");
        reveal_strlit("MANUAL SECTION END");
    }
    let mut out: Vec<char> = Vec::new();
    let mut i: usize = 0;
    while i < t.len()
        invariant
            i <= t.len(),
            head@ == section_head(),
            tail@ == section_end(),
            head@.len() == 16,
            tail@.len() == 18,
            merged(t@, old@) == out@ + merged_from(t@, old@, i as int),
        decreases t.len() - i,
    {
        match section_at_pos(&t, i, &head, &tail) {
            Some((ie, end)) => {
                let id = slice(&t, i + 16, ie);
                let piece = match find_section_in(&old, &id, &head, &tail) {
                    Some((s, e)) => slice(&old, s, e),
                    None => slice(&t, i, end),
                };
                proof {
                    lemma_assoc(out@, piece@, merged_from(t@, old@, end as int));
                }
                push_all(&mut out, &piece);
                i = end;
            },
            None => {
                proof {
                    lemma_assoc(out@, seq![t@[i as int]], merged_from(t@, old@, i + 1));
                }
                out.push(t[i]);
                i = i + 1;
            },
        }
    }
    assert(out@ + seq![] =~= out@);
    text_of(&out)
}

/// A manual section with identifier `id` around `body`.
pub open spec fn section(id: Seq<char>, body: Seq<char>) -> Seq<char> {
    section_head() + id + body + section_end()
}

proof fn lemma_run_end_at(t: Seq<char>, a: int, b: int)
    requires
        0 <= a <= b <= t.len(),
        forall|k: int| a <= k < b ==> id_char(t[k]),
        b == t.len() || !id_char(t[b]),
    ensures
        run_end(t, a, |c: char| id_char(c)) == b,
    decreases b - a,
{
    if a < b {
        lemma_run_end_at(t, a + 1, b);
    }
}

proof fn lemma_first_at_at(t: Seq<char>, p: Seq<char>, i: int, q: int)
    requires
        0 <= i <= q,
        at(t, q, p),
        forall|k: int| i <= k < q ==> !at(t, k, p),
    ensures
        first_at(t, p, i) == q,
    decreases q - i,
{
    if i < q {
        lemma_first_at_at(t, p, i + 1, q);
    }
}

proof fn lemma_merged_skip(t: Seq<char>, o: Seq<char>, i: int, j: int)
    requires
        0 <= i <= j <= t.len(),
        forall|k: int| i <= k < j ==> !at(t, k, section_head()),
    ensures
        merged_from(t, o, i) == t.subrange(i, j) + merged_from(t, o, j),
    decreases j - i,
{
    if i < j {
        lemma_merged_skip(t, o, i + 1, j);
        assert(t.subrange(i, j) =~= seq![t[i]] + t.subrange(i + 1, j));
        lemma_assoc(seq![t[i]], t.subrange(i + 1, j), merged_from(t, o, j));
    } else {
        assert(t.subrange(i, j) + merged_from(t, o, j) =~= merged_from(t, o, j));
    }
}

proof fn lemma_find_skip(t: Seq<char>, id: Seq<char>, j: int, m: int)
    requires
        0 <= j <= m <= t.len(),
        forall|k: int| j <= k < m ==> !at(t, k, section_head()),
    ensures
        find_section(t, id, j) == find_section(t, id, m),
    decreases m - j,
{
    if j < m {
        lemma_find_skip(t, id, j + 1, m);
    }
}

/// In `t`, the section for `id` around `body` starts at `p`.
proof fn lemma_section_at(t: Seq<char>, p: int, id: Seq<char>, body: Seq<char>)
    requires
        0 <= p,
        p + section(id, body).len() <= t.len(),
        t.subrange(p, p + section(id, body).len()) == section(id, body),
        id.len() > 0,
        forall|k: int| 0 <= k < id.len() ==> id_char(#[trigger] id[k]),
        body.len() == 0 || !id_char(body[0]),
        forall|k: int|
            p + 16 + id.len() <= k < p + 16 + id.len() + body.len() ==> !at(t, k, section_end()),
    ensures
        section_at(t, p) == Some((p + 16 + id.len(), p + section(id, body).len())),
        t.subrange(p + 16, p + 16 + id.len()) == id,
        t.subrange(p, p + section(id, body).len()) == section(id, body),
{
    reveal_strlit("MANUAL SECTION: ");
    reveal_strlit("MANUAL SECTION END");
    let sec = section(id, body);
    let ie = p + 16 + id.len();
    let q = ie + body.len();
    assert forall|k: int| 0 <= k < sec.len() implies t[p + k] == sec[k] by {
        assert(t.subrange(p, p + sec.len())[k] == t[p + k]);
    }
    assert(t.subrange(p, p + 16) =~= section_head()) by {
        assert forall|k: int| 0 <= k < 16 implies t.subrange(p, p + 16)[k] == section_head()[k] by {
            assert(sec[k] == section_head()[k]);
            assert(t[p + k] == sec[k]);
        }
    }
    assert forall|k: int| p + 16 <= k < ie implies id_char(t[k]) by {
        assert(sec[k - p] == id[k - p - 16]);
        assert(t[p + (k - p)] == sec[k - p]);
    }
    if body.len() > 0 {
        assert(sec[ie - p] == body[0]);
        assert(t[p + (ie - p)] == sec[ie - p]);
    } else {
        assert(sec[ie - p] == section_end()[0]);
        assert(t[p + (ie - p)] == sec[ie - p]);
    }
    lemma_run_end_at(t, p + 16, ie);
    assert(t.subrange(q, q + 18) =~= section_end()) by {
        assert forall|k: int| 0 <= k < 18 implies t.subrange(q, q + 18)[k] == section_end()[k] by {
            assert(sec[q - p + k] == section_end()[k]);
            assert(t[p + (q - p + k)] == sec[q - p + k]);
        }
    }
    lemma_first_at_at(t, section_end(), ie, q);
    assert(t.subrange(p + 16, ie) =~= id) by {
        assert forall|k: int| 0 <= k < id.len() implies t.subrange(p + 16, ie)[k] == id[k] by {
            assert(sec[16 + k] == id[k]);
            assert(t[p + (16 + k)] == sec[16 + k]);
        }
    }
}

/// Regeneration keeps a hand-edited manual section: when the fresh rendering holds
/// the section `id` once, amid text with no other section, and the previous output
/// holds a section with the same identifier after text with no section, the merge
/// gives the fresh text around the previous section, verbatim.
pub proof fn law_merge_keeps_manual_edit(
    pre: Seq<char>,
    id: Seq<char>,
    fresh_body: Seq<char>,
    post: Seq<char>,
    old_pre: Seq<char>,
    old_body: Seq<char>,
    old_post: Seq<char>,
)
    requires
        id.len() > 0,
        forall|k: int| 0 <= k < id.len() ==> id_char(#[trigger] id[k]),
        fresh_body.len() == 0 || !id_char(fresh_body[0]),
        old_body.len() == 0 || !id_char(old_body[0]),
        forall|k: int|
            0 <= k < pre.len() ==> !at(pre + section(id, fresh_body) + post, k, section_head()),
        forall|k: int|
            pre.len() + section(id, fresh_body).len() <= k ==> !at(
                pre + section(id, fresh_body) + post,
                k,
                section_head(),
            ),
        forall|k: int|
            pre.len() + 16 + id.len() <= k < pre.len() + 16 + id.len() + fresh_body.len() ==> !at(
                pre + section(id, fresh_body) + post,
                k,
                section_end(),
            ),
        forall|k: int|
            0 <= k < old_pre.len() ==> !at(
                old_pre + section(id, old_body) + old_post,
                k,
                section_head(),
            ),
        forall|k: int|
            old_pre.len() + 16 + id.len() <= k < old_pre.len() + 16 + id.len() + old_body.len()
                ==> !at(old_pre + section(id, old_body) + old_post, k, section_end()),
    ensures
        merged(pre + section(id, fresh_body) + post, old_pre + section(id, old_body) + old_post)
            == pre + section(id, old_body) + post,
{
    let f = pre + section(id, fresh_body) + post;
    let o = old_pre + section(id, old_body) + old_post;
    let start = pre.len() as int;
    let s_new = section(id, fresh_body);
    let s_old = section(id, old_body);
    let e0 = start + s_new.len();
    let op = old_pre.len() as int;
    assert(f.subrange(start, e0) =~= s_new);
    assert(o.subrange(op, op + s_old.len()) =~= s_old);
    lemma_section_at(f, start, id, fresh_body);
    lemma_section_at(o, op, id, old_body);
    lemma_merged_skip(f, o, 0, start);
    assert(f.subrange(0, start) =~= pre);
    lemma_find_skip(o, id, 0, op);
    assert(find_section(o, id, op) == Some((op, op + s_old.len())));
    assert(merged_from(f, o, start) == s_old + merged_from(f, o, e0));
    lemma_merged_skip(f, o, e0, f.len() as int);
    assert(f.subrange(e0, f.len() as int) =~= post);
    assert(merged_from(f, o, f.len() as int) == Seq::<char>::empty());
    assert(post + Seq::<char>::empty() =~= post);
    assert(pre + (s_old + post) =~= pre + s_old + post);
}

} // verus!
