//! The edit model: pending insertions and replacements against the original
//! text, collected without duplicates and applied in one pass from the end
//! of the text to its start.

use vstd::prelude::*;
use crate::text::occurs_in;

verus! {

/// What an edit does at its start position.
#[derive(PartialEq, Eq, Structural, Clone, Copy, Debug)]
pub enum EditKind {
    /// Insert the content before the character at the start position.
    Insert,
    /// Replace the characters from the start position up to this end position.
    Replace(usize),
}

/// One pending change, positioned in the original text.
pub struct Edit {
    pub content: String,
    pub start_pos: usize,
    pub kind: EditKind,
}

/// The mathematical value of an `Edit`.
pub ghost struct EditView {
    pub content: Seq<char>,
    pub start_pos: nat,
    pub kind: EditKind,
}

impl View for Edit {
    type V = EditView;

    open spec fn view(&self) -> EditView {
        EditView { content: self.content@, start_pos: self.start_pos as nat, kind: self.kind }
    }
}

impl Edit {
    pub fn new_insert(insert_str: String, insert_pos: usize) -> (r: Edit)
        ensures
            r@ == (EditView {
                content: insert_str@,
                start_pos: insert_pos as nat,
                kind: EditKind::Insert,
            }),
    {
        Edit { content: insert_str, start_pos: insert_pos, kind: EditKind::Insert }
    }

    pub fn new_replace(replace_str: String, start_pos: usize, end_pos: usize) -> (r: Edit)
        ensures
            r@ == (EditView {
                content: replace_str@,
                start_pos: start_pos as nat,
                kind: EditKind::Replace(end_pos),
            }),
    {
        Edit { content: replace_str, start_pos, kind: EditKind::Replace(end_pos) }
    }

    /// A copy of this edit.
    pub fn duplicate(&self) -> (r: Edit)
        ensures
            r@ == self@,
    {
        Edit { content: self.content.clone(), start_pos: self.start_pos, kind: self.kind }
    }
}

/// Where the text an edit covers ends: its start for an insertion.
pub open spec fn span_end(e: EditView) -> nat {
    match e.kind {
        EditKind::Insert => e.start_pos,
        EditKind::Replace(end) => end as nat,
    }
}

/// Whether `s` holds an edit with this position and content.
pub open spec fn has_key(s: Seq<EditView>, pos: nat, content: Seq<char>) -> bool {
    exists|j: int| 0 <= j < s.len() && (#[trigger] s[j]).start_pos == pos && s[j].content == content
}

/// `s` after offering it `e`: unchanged when it already holds an edit with
/// the same position and content, else with `e` appended.
pub open spec fn add_edit(s: Seq<EditView>, e: EditView) -> Seq<EditView> {
    if has_key(s, e.start_pos, e.content) {
        s
    } else {
        s.push(e)
    }
}

/// `s` after offering it each edit of `es` in turn.
pub open spec fn add_edits(s: Seq<EditView>, es: Seq<EditView>) -> Seq<EditView>
    decreases es.len(),
{
    if es.len() == 0 {
        s
    } else {
        add_edits(add_edit(s, es[0]), es.drop_first())
    }
}

/// No two edits of `s` share position and content.
pub open spec fn keys_unique(s: Seq<EditView>) -> bool {
    forall|i: int, j: int|
        0 <= i < j < s.len() ==> !((#[trigger] s[i]).start_pos == (#[trigger] s[j]).start_pos
            && s[i].content == s[j].content)
}

/// Offering an edit whose position and content are already held changes
/// nothing: the same edit derived twice is kept once.
pub proof fn lemma_add_edit_idempotent(s: Seq<EditView>, e: EditView, f: EditView)
    requires
        f.start_pos == e.start_pos,
        f.content == e.content,
    ensures
        add_edit(add_edit(s, e), f) == add_edit(s, e),
        keys_unique(s) ==> keys_unique(add_edit(s, e)),
{
    let t = add_edit(s, e);
    if !has_key(s, e.start_pos, e.content) {
        assert(t[s.len() as int] == e);
    }
    assert(has_key(t, f.start_pos, f.content));
}

/// `e` placed into `s`, which is in descending order of position, after
/// every edit whose position is greater and before the others.
pub open spec fn insert_desc(s: Seq<EditView>, e: EditView) -> Seq<EditView>
    decreases s.len(),
{
    if s.len() == 0 {
        seq![e]
    } else if s[0].start_pos > e.start_pos {
        seq![s[0]] + insert_desc(s.drop_first(), e)
    } else {
        seq![e] + s
    }
}

/// `s` in descending order of position; edits with equal positions in the
/// reverse of their order in `s`, so that once applied their texts stand in
/// the order of `s`.
pub open spec fn sort_desc(s: Seq<EditView>) -> Seq<EditView>
    decreases s.len(),
{
    if s.len() == 0 {
        s
    } else {
        insert_desc(sort_desc(s.drop_last()), s.last())
    }
}

/// `buf` with `e` applied.
#[verifier::opaque]
pub open spec fn apply_one(buf: Seq<char>, e: EditView) -> Seq<char> {
    buf.subrange(0, e.start_pos as int) + e.content + buf.subrange(span_end(e) as int, buf.len() as int)
}

/// `buf` with the edits of `es` applied one after the other.
#[verifier::opaque]
pub open spec fn apply_seq(buf: Seq<char>, es: Seq<EditView>) -> Seq<char>
    decreases es.len(),
{
    if es.len() == 0 {
        buf
    } else {
        apply_one(apply_seq(buf, es.drop_last()), es.last())
    }
}

/// The edits of `es` lie in a text of `n` characters, each ends no later
/// than the one before it starts, and none ends before it starts.
#[verifier::opaque]
pub open spec fn fits_desc(es: Seq<EditView>, n: nat) -> bool {
    forall|i: int|
        0 <= i < es.len() ==> {
            &&& (#[trigger] es[i]).start_pos <= span_end(es[i])
            &&& span_end(es[i]) <= if i == 0 {
                n
            } else {
                es[i - 1].start_pos
            }
        }
}

/// The text after all edits of `s`, applied from the greatest position to
/// the smallest; `None` when two of them overlap or one lies outside `buf`.
pub open spec fn apply_edits(buf: Seq<char>, s: Seq<EditView>) -> Option<Seq<char>> {
    let es = sort_desc(s);
    if fits_desc(es, buf.len()) {
        Some(apply_seq(buf, es))
    } else {
        None
    }
}

proof fn lemma_apply_one_keeps_prefix(b: Seq<char>, e: EditView, m: nat)
    requires
        e.start_pos <= span_end(e) <= b.len(),
        m <= e.start_pos,
    ensures
        apply_one(b, e).len() >= m,
        apply_one(b, e).subrange(0, m as int) == b.subrange(0, m as int),
        apply_one(b, e).subrange(e.start_pos as int, (e.start_pos + e.content.len()) as int)
            == e.content,
{
    reveal(apply_one);
    let r = apply_one(b, e);
    assert(r.subrange(0, m as int) =~= b.subrange(0, m as int));
    assert(r.subrange(e.start_pos as int, (e.start_pos + e.content.len()) as int) =~= e.content);
}

proof fn lemma_apply_seq_step(buf: Seq<char>, es: Seq<EditView>, k: int)
    requires
        0 <= k < es.len(),
    ensures
        apply_seq(buf, es.take(k + 1)) == apply_one(apply_seq(buf, es.take(k)), es[k]),
        apply_seq(buf, es.take(0)) == buf,
{
    reveal(apply_seq);
    assert(es.take(k + 1).drop_last() =~= es.take(k));
    assert(es.take(0) =~= Seq::<EditView>::empty());
}

proof fn lemma_fits_at(es: Seq<EditView>, n: nat, k: int)
    requires
        fits_desc(es, n),
        0 <= k < es.len(),
    ensures
        es[k].start_pos <= span_end(es[k]),
        k == 0 ==> span_end(es[k]) <= n,
        k > 0 ==> span_end(es[k]) <= es[k - 1].start_pos,
{
    reveal(fits_desc);
}

/// Edits applied in descending order of position leave the text before each
/// edit's span as it was in the original, however many edits came before
/// at greater positions; so each edit lands at the position it was computed
/// for, and its content stands there right after it is applied.
pub proof fn lemma_offset_stability(buf: Seq<char>, es: Seq<EditView>, k: int)
    requires
        fits_desc(es, buf.len()),
        0 <= k < es.len(),
    ensures
        span_end(es[k]) <= buf.len(),
        apply_seq(buf, es.take(k)).len() >= span_end(es[k]),
        apply_seq(buf, es.take(k)).subrange(0, span_end(es[k]) as int) == buf.subrange(
            0,
            span_end(es[k]) as int,
        ),
        apply_seq(buf, es.take(k + 1)).subrange(
            es[k].start_pos as int,
            (es[k].start_pos + es[k].content.len()) as int,
        ) == es[k].content,
    decreases k,
{
    let e = es[k];
    let m = span_end(e);
    lemma_fits_at(es, buf.len(), k);
    lemma_apply_seq_step(buf, es, k);
    if k > 0 {
        lemma_offset_stability(buf, es, k - 1);
        lemma_fits_at(es, buf.len(), k - 1);
        let prev = es[k - 1];
        let before = apply_seq(buf, es.take(k - 1));
        lemma_apply_seq_step(buf, es, k - 1);
        lemma_apply_one_keeps_prefix(before, prev, m);
        let pm = span_end(prev) as int;
        assert(before.subrange(0, m as int) =~= before.subrange(0, pm).subrange(0, m as int));
        assert(buf.subrange(0, m as int) =~= buf.subrange(0, pm).subrange(0, m as int));
    }
    let mid = apply_seq(buf, es.take(k));
    lemma_apply_one_keeps_prefix(mid, e, 0);
}

/// The views of the edits of `v`.
pub open spec fn views(v: Seq<Edit>) -> Seq<EditView> {
    v.map_values(|e: Edit| e@)
}

proof fn lemma_insert_desc_at(s: Seq<EditView>, e: EditView, k: int)
    requires
        0 <= k <= s.len(),
        forall|j: int| 0 <= j < k ==> (#[trigger] s[j]).start_pos > e.start_pos,
        k < s.len() ==> s[k].start_pos <= e.start_pos,
    ensures
        insert_desc(s, e) == s.take(k).push(e) + s.skip(k),
    decreases s.len(),
{
    if s.len() == 0 {
        assert(s.take(k).push(e) + s.skip(k) =~= seq![e]);
    } else if k == 0 {
        assert(s.take(0).push(e) + s.skip(0) =~= seq![e] + s);
    } else {
        let t = s.drop_first();
        assert forall|j: int| 0 <= j < k - 1 implies (#[trigger] t[j]).start_pos > e.start_pos by {
            assert(t[j] == s[j + 1]);
        }
        lemma_insert_desc_at(t, e, k - 1);
        assert(seq![s[0]] + (t.take(k - 1).push(e) + t.skip(k - 1)) =~= s.take(k).push(e) + s.skip(
            k,
        ));
    }
}

proof fn lemma_fits_extend(ev: Seq<EditView>, n: nat, i: int)
    requires
        0 <= i < ev.len(),
        fits_desc(ev.take(i), n),
        ev[i].start_pos <= span_end(ev[i]),
        span_end(ev[i]) <= if i == 0 {
            n
        } else {
            ev[i - 1].start_pos
        },
    ensures
        fits_desc(ev.take(i + 1), n),
{
    reveal(fits_desc);
    let t = ev.take(i + 1);
    let u = ev.take(i);
    assert forall|j: int| 0 <= j < t.len() implies {
        &&& (#[trigger] t[j]).start_pos <= span_end(t[j])
        &&& span_end(t[j]) <= if j == 0 {
            n
        } else {
            t[j - 1].start_pos
        }
    } by {
        if j < i {
            assert(t[j] == u[j]);
            if j > 0 {
                assert(t[j - 1] == u[j - 1]);
            }
        }
    }
}

proof fn lemma_fits_fail(ev: Seq<EditView>, n: nat, i: int)
    requires
        0 <= i < ev.len(),
        !(ev[i].start_pos <= span_end(ev[i]) && span_end(ev[i]) <= if i == 0 {
            n
        } else {
            ev[i - 1].start_pos
        }),
    ensures
        !fits_desc(ev, n),
{
    reveal(fits_desc);
}

proof fn lemma_prefix_step(cur: Seq<char>, buf: Seq<char>, e: EditView, bound: nat)
    requires
        e.start_pos <= span_end(e) <= bound <= cur.len(),
        bound <= buf.len(),
        cur.subrange(0, bound as int) == buf.subrange(0, bound as int),
    ensures
        apply_one(cur, e).len() >= e.start_pos,
        apply_one(cur, e).subrange(0, e.start_pos as int) == buf.subrange(0, e.start_pos as int),
{
    lemma_apply_one_keeps_prefix(cur, e, e.start_pos);
    assert(cur.subrange(0, e.start_pos as int) =~= cur.subrange(0, bound as int).subrange(
        0,
        e.start_pos as int,
    ));
    assert(buf.subrange(0, e.start_pos as int) =~= buf.subrange(0, bound as int).subrange(
        0,
        e.start_pos as int,
    ));
}

/// A set of pending edits in the order they were offered, without two that
/// share position and content.
pub struct EditSet {
    edits: Vec<Edit>,
}

impl View for EditSet {
    type V = Seq<EditView>;

    closed spec fn view(&self) -> Seq<EditView> {
        views(self.edits@)
    }
}

impl EditSet {
    pub fn new() -> (r: EditSet)
        ensures
            r@ == Seq::<EditView>::empty(),
    {
        let r = EditSet { edits: Vec::new() };
        assert(r@ =~= Seq::<EditView>::empty());
        r
    }

    pub fn len(&self) -> (r: usize)
        ensures
            r == self@.len(),
    {
        self.edits.len()
    }

    /// Whether the set holds an edit at `pos` with this content.
    pub fn contains_key(&self, pos: usize, content: &String) -> (r: bool)
        ensures
            r == has_key(self@, pos as nat, content@),
    {
        let mut j: usize = 0;
        while j < self.edits.len()
            invariant
                j <= self.edits@.len(),
                self@ == views(self.edits@),
                forall|i: int|
                    0 <= i < j ==> !((#[trigger] self@[i]).start_pos == pos && self@[i].content
                        == content@),
            decreases self.edits.len() - j,
        {
            if self.edits[j].start_pos == pos && self.edits[j].content == *content {
                assert(self@[j as int].start_pos == pos && self@[j as int].content == content@);
                return true;
            }
            j = j + 1;
        }
        false
    }

    /// Offers `e`: it is kept unless an edit at the same position with the
    /// same content is already held.
    pub fn add(&mut self, e: Edit)
        ensures
            final(self)@ == add_edit(old(self)@, e@),
    {
        if !self.contains_key(e.start_pos, &e.content) {
            self.edits.push(e);
            assert(self@ =~= old(self)@.push(e@));
        }
    }

    /// The held edits in descending order of position; edits at equal
    /// positions in the reverse of the order they were offered.
    pub fn sorted_desc(&self) -> (r: Vec<Edit>)
        ensures
            views(r@) == sort_desc(self@),
    {
        let mut out: Vec<Edit> = Vec::new();
        let mut i: usize = 0;
        assert(self@.take(0) =~= Seq::<EditView>::empty());
        assert(views(out@) =~= Seq::<EditView>::empty());
        while i < self.edits.len()
            invariant
                i <= self.edits@.len(),
                self@ == views(self.edits@),
                views(out@) == sort_desc(self@.take(i as int)),
            decreases self.edits.len() - i,
        {
            let e = self.edits[i].duplicate();
            let mut k: usize = 0;
            while k < out.len() && out[k].start_pos > e.start_pos
                invariant
                    k <= out@.len(),
                    forall|j: int| 0 <= j < k ==> (#[trigger] out@[j]).start_pos > e.start_pos,
                decreases out.len() - k,
            {
                k = k + 1;
            }
            let ghost before = views(out@);
            proof {
                assert forall|j: int| 0 <= j < k implies (#[trigger] before[j]).start_pos
                    > e@.start_pos by {
                    assert(before[j] == out@[j]@);
                }
                lemma_insert_desc_at(before, e@, k as int);
                assert(self@.take(i + 1).drop_last() =~= self@.take(i as int));
                assert(self@.take(i + 1).last() == self.edits@[i as int]@);
            }
            out.insert(k, e);
            assert(views(out@) =~= before.take(k as int).push(e@) + before.skip(k as int));
            i = i + 1;
        }
        assert(self@.take(i as int) =~= self@);
        out
    }

    /// The text `buf` with every held edit applied, from the greatest
    /// position to the smallest; `None` when two edits overlap or one lies
    /// outside `buf`.
    pub fn apply(&self, buf: &str) -> (r: Option<String>)
        ensures
            match r {
                Some(s) => apply_edits(buf@, self@) == Some(s@),
                None => apply_edits(buf@, self@) is None,
            },
    {
        let es = self.sorted_desc();
        let ghost ev = views(es@);
        assert(ev == sort_desc(self@));
        let n = buf.unicode_len();
        let mut cur = String::from_str(buf);
        let mut bound = n;
        let mut i: usize = 0;
        proof {
            reveal(apply_seq);
            reveal(fits_desc);
            assert(ev.take(0) =~= Seq::<EditView>::empty());
            assert(buf@.subrange(0, n as int) =~= buf@);
        }
        while i < es.len()
            invariant
                i <= es@.len(),
                ev == views(es@),
                ev == sort_desc(self@),
                n == buf@.len(),
                cur@ == apply_seq(buf@, ev.take(i as int)),
                fits_desc(ev.take(i as int), n as nat),
                bound == if i == 0 {
                    n as nat
                } else {
                    ev[i - 1].start_pos
                },
                bound <= n,
                cur@.len() >= bound,
                cur@.subrange(0, bound as int) == buf@.subrange(0, bound as int),
            decreases es.len() - i,
        {
            let e = &es[i];
            let ghost ee = ev[i as int];
            assert(ee == e@);
            let end = match e.kind {
                EditKind::Insert => e.start_pos,
                EditKind::Replace(x) => x,
            };
            if e.start_pos > end || end > bound {
                proof {
                    lemma_fits_fail(ev, n as nat, i as int);
                    assert(ev == sort_desc(self@));
                    assert(apply_edits(buf@, self@) is None);
                }
                return None;
            }
            let len = cur.unicode_len();
            let mut next = String::from_str(cur.as_str().substring_char(0, e.start_pos));
            next.append(e.content.as_str());
            next.append(cur.as_str().substring_char(end, len));
            proof {
                assert(next@ == apply_one(cur@, ee)) by {
                    reveal(apply_one);
                }
                lemma_apply_seq_step(buf@, ev, i as int);
                lemma_prefix_step(cur@, buf@, ee, bound as nat);
                lemma_fits_extend(ev, n as nat, i as int);
            }
            cur = next;
            bound = e.start_pos;
            i = i + 1;
        }
        assert(ev.take(i as int) =~= ev);
        Some(cur)
    }
}

/// Offering edits one by one: the last one is offered to the result of the others.
pub proof fn lemma_add_edits_push(s: Seq<EditView>, es: Seq<EditView>, e: EditView)
    ensures
        add_edits(s, es.push(e)) == add_edit(add_edits(s, es), e),
    decreases es.len(),
{
    if es.len() == 0 {
        assert(es.push(e)[0] == e);
        assert(es.push(e).drop_first() =~= Seq::<EditView>::empty());
        assert(add_edits(add_edit(s, e), Seq::<EditView>::empty()) == add_edit(s, e));
        assert(add_edits(s, es) == s);
    } else {
        assert(es.push(e)[0] == es[0]);
        assert(es.push(e).drop_first() =~= es.drop_first().push(e));
        lemma_add_edits_push(add_edit(s, es[0]), es.drop_first(), e);
    }
}

impl EditSet {
    /// Offers each edit of `es` in turn.
    pub fn add_all(&mut self, es: &Vec<Edit>)
        ensures
            final(self)@ == add_edits(old(self)@, views(es@)),
    {
        let mut i: usize = 0;
        assert(views(es@).take(0) =~= Seq::<EditView>::empty());
        while i < es.len()
            invariant
                i <= es@.len(),
                self@ == add_edits(old(self)@, views(es@).take(i as int)),
            decreases es.len() - i,
        {
            self.add(es[i].duplicate());
            proof {
                assert(views(es@).take(i + 1) =~= views(es@).take(i as int).push(es@[i as int]@));
                lemma_add_edits_push(old(self)@, views(es@).take(i as int), es@[i as int]@);
            }
            i = i + 1;
        }
        assert(views(es@).take(i as int) =~= views(es@));
    }
}

/// `f` keeps clear of the text from `a` to `q` around position `p`: it
/// starts after `p` and no earlier than `q`, or starts before `p` and ends
/// no later than `a`.
pub open spec fn clear_of(f: EditView, a: nat, p: nat, q: nat) -> bool {
    (f.start_pos >= q && f.start_pos > p) || (span_end(f) <= a && f.start_pos < p)
}

proof fn lemma_starts_desc(es: Seq<EditView>, n: nat, j: int, k: int)
    requires
        fits_desc(es, n),
        0 <= j <= k < es.len(),
    ensures
        es[k].start_pos <= es[j].start_pos,
    decreases k - j,
{
    if j < k {
        lemma_fits_at(es, n, k);
        lemma_fits_at(es, n, k - 1);
        lemma_starts_desc(es, n, j, k - 1);
    }
}

proof fn lemma_prefix_before(buf: Seq<char>, es: Seq<EditView>, k: int, q: nat)
    requires
        fits_desc(es, buf.len()),
        0 <= k <= es.len(),
        q <= buf.len(),
        forall|j: int| 0 <= j < k ==> (#[trigger] es[j]).start_pos >= q,
    ensures
        apply_seq(buf, es.take(k)).len() >= q,
        apply_seq(buf, es.take(k)).subrange(0, q as int) == buf.subrange(0, q as int),
    decreases k,
{
    if k == 0 {
        reveal(apply_seq);
        assert(es.take(0) =~= Seq::<EditView>::empty());
    } else {
        lemma_prefix_before(buf, es, k - 1, q);
        let b = apply_seq(buf, es.take(k - 1));
        lemma_offset_stability(buf, es, k - 1);
        lemma_fits_at(es, buf.len(), k - 1);
        assert(es[k - 1].start_pos >= q);
        lemma_apply_one_keeps_prefix(b, es[k - 1], q);
        lemma_apply_seq_step(buf, es, k - 1);
    }
}

proof fn lemma_apply_one_keeps_after(b: Seq<char>, f: EditView, o: nat, w: nat)
    requires
        f.start_pos <= span_end(f) <= o,
        o + w <= b.len(),
    ensures
        apply_one(b, f).len() >= o - span_end(f) + f.start_pos + f.content.len() + w,
        apply_one(b, f).subrange(
            o - span_end(f) + f.start_pos + f.content.len(),
            o - span_end(f) + f.start_pos + f.content.len() + w,
        ) == b.subrange(o as int, (o + w) as int),
{
    reveal(apply_one);
    let o2 = o - span_end(f) + f.start_pos + f.content.len();
    assert(apply_one(b, f).subrange(o2, o2 + w) =~= b.subrange(o as int, (o + w) as int));
}

proof fn lemma_window_tail(buf: Seq<char>, es: Seq<EditView>, i: int, o: nat, w: Seq<char>)
    requires
        fits_desc(es, buf.len()),
        0 < i <= es.len(),
        apply_seq(buf, es.take(i)).len() >= o + w.len(),
        apply_seq(buf, es.take(i)).subrange(o as int, (o + w.len()) as int) == w,
        i < es.len() ==> span_end(es[i]) <= o,
    ensures
        occurs_in(apply_seq(buf, es), w),
    decreases es.len() - i,
{
    if i == es.len() {
        assert(es.take(i) =~= es);
        assert(apply_seq(buf, es).subrange(o as int, (o + w.len()) as int) == w);
    } else {
        let r = apply_seq(buf, es.take(i));
        let f = es[i];
        lemma_fits_at(es, buf.len(), i);
        lemma_apply_seq_step(buf, es, i);
        lemma_apply_one_keeps_after(r, f, o, w.len());
        let o2 = (o - span_end(f) + f.start_pos + f.content.len()) as nat;
        if i + 1 < es.len() {
            lemma_fits_at(es, buf.len(), i + 1);
        }
        lemma_window_tail(buf, es, i + 1, o2, w);
    }
}

/// An insertion whose surroundings no other edit touches lands between the
/// original text before and after its position: when every other edit of
/// the descending sequence `es` keeps clear of the text from `a` to `q`
/// around the insertion's position, the result holds that text with the
/// insertion's content at its place.
pub proof fn lemma_insertion_anchored(buf: Seq<char>, es: Seq<EditView>, k: int, a: nat, q: nat)
    requires
        fits_desc(es, buf.len()),
        0 <= k < es.len(),
        es[k].kind == EditKind::Insert,
        a <= es[k].start_pos <= q <= buf.len(),
        forall|j: int|
            0 <= j < es.len() && j != k ==> clear_of(#[trigger] es[j], a, es[k].start_pos, q),
    ensures
        occurs_in(
            apply_seq(buf, es),
            buf.subrange(a as int, es[k].start_pos as int) + es[k].content + buf.subrange(
                es[k].start_pos as int,
                q as int,
            ),
        ),
{
    let e = es[k];
    let p = e.start_pos;
    let w = buf.subrange(a as int, p as int) + e.content + buf.subrange(p as int, q as int);
    assert forall|j: int| 0 <= j < k implies (#[trigger] es[j]).start_pos >= q by {
        lemma_starts_desc(es, buf.len(), j, k);
        assert(clear_of(es[j], a, p, q));
    }
    lemma_prefix_before(buf, es, k, q);
    let mid = apply_seq(buf, es.take(k));
    lemma_apply_seq_step(buf, es, k);
    let r = apply_seq(buf, es.take(k + 1));
    assert(r == apply_one(mid, e));
    assert(mid.subrange(a as int, p as int) =~= mid.subrange(0, q as int).subrange(a as int, p as int));
    assert(buf.subrange(a as int, p as int) =~= buf.subrange(0, q as int).subrange(a as int, p as int));
    assert(mid.subrange(p as int, q as int) =~= mid.subrange(0, q as int).subrange(p as int, q as int));
    assert(buf.subrange(p as int, q as int) =~= buf.subrange(0, q as int).subrange(p as int, q as int));
    assert(r.subrange(a as int, (a + w.len()) as int) =~= w && r.len() == mid.len()
        + e.content.len()) by {
        reveal(apply_one);
    }
    if k + 1 < es.len() {
        lemma_starts_desc(es, buf.len(), k, k + 1);
        assert(clear_of(es[k + 1], a, p, q));
    }
    lemma_window_tail(buf, es, k + 1, a, w);
}

/// No edit occurs twice in `s`.
pub open spec fn distinct(s: Seq<EditView>) -> bool {
    forall|i: int, j: int| 0 <= i < j < s.len() ==> s[i] != s[j]
}

proof fn lemma_cons_contains(x: EditView, t: Seq<EditView>, y: EditView)
    ensures
        (seq![x] + t).contains(y) == (y == x || t.contains(y)),
{
    let c = seq![x] + t;
    if t.contains(y) {
        let j = choose|j: int| 0 <= j < t.len() && t[j] == y;
        assert(c[j + 1] == y);
    }
    if c.contains(y) && y != x {
        let j = choose|j: int| 0 <= j < c.len() && c[j] == y;
        assert(t[j - 1] == y);
    }
    assert(c[0] == x);
}

proof fn lemma_insert_desc_elems(s: Seq<EditView>, e: EditView)
    ensures
        insert_desc(s, e).len() == s.len() + 1,
        forall|y: EditView| #[trigger] insert_desc(s, e).contains(y) == (s.contains(y) || y == e),
        distinct(s) && !s.contains(e) ==> distinct(insert_desc(s, e)),
    decreases s.len(),
{
    if s.len() == 0 {
        assert forall|y: EditView| #[trigger] insert_desc(s, e).contains(y) == (s.contains(y) || y
            == e) by {
            lemma_cons_contains(e, s, y);
            assert(seq![e] + s =~= seq![e]);
        }
    } else if s[0].start_pos > e.start_pos {
        let t = s.drop_first();
        lemma_insert_desc_elems(t, e);
        assert(s =~= seq![s[0]] + t);
        assert forall|y: EditView| #[trigger] insert_desc(s, e).contains(y) == (s.contains(y) || y
            == e) by {
            lemma_cons_contains(s[0], insert_desc(t, e), y);
            lemma_cons_contains(s[0], t, y);
        }
        if distinct(s) && !s.contains(e) {
            assert(distinct(t));
            assert(!t.contains(e)) by {
                lemma_cons_contains(s[0], t, e);
            }
            let r = seq![s[0]] + insert_desc(t, e);
            assert(!insert_desc(t, e).contains(s[0])) by {
                if t.contains(s[0]) {
                    let j = choose|j: int| 0 <= j < t.len() && t[j] == s[0];
                    assert(s[j + 1] == s[0]);
                }
                assert(s.contains(s[0]) && s[0] != e || !s.contains(e));
            }
            assert forall|i: int, j: int| 0 <= i < j < r.len() implies r[i] != r[j] by {
                if i == 0 {
                    assert(r[j] == insert_desc(t, e)[j - 1]);
                } else {
                    assert(r[i] == insert_desc(t, e)[i - 1] && r[j] == insert_desc(t, e)[j - 1]);
                }
            }
        }
    } else {
        assert forall|y: EditView| #[trigger] insert_desc(s, e).contains(y) == (s.contains(y) || y
            == e) by {
            lemma_cons_contains(e, s, y);
        }
        if distinct(s) && !s.contains(e) {
            let r = seq![e] + s;
            assert forall|i: int, j: int| 0 <= i < j < r.len() implies r[i] != r[j] by {
                if i == 0 {
                    assert(r[j] == s[j - 1]);
                    assert(s.contains(s[j - 1]));
                } else {
                    assert(r[i] == s[i - 1] && r[j] == s[j - 1]);
                }
            }
        }
    }
}

/// Sorting keeps the edits: the same ones, as many, and no repeats added.
pub proof fn lemma_sort_desc_elems(s: Seq<EditView>)
    ensures
        sort_desc(s).len() == s.len(),
        forall|y: EditView| #[trigger] sort_desc(s).contains(y) == s.contains(y),
        distinct(s) ==> distinct(sort_desc(s)),
    decreases s.len(),
{
    if s.len() > 0 {
        let init = s.drop_last();
        lemma_sort_desc_elems(init);
        lemma_insert_desc_elems(sort_desc(init), s.last());
        assert(s =~= init.push(s.last()));
        assert forall|y: EditView| #[trigger] sort_desc(s).contains(y) == s.contains(y) by {
            if s.contains(y) && y != s.last() {
                let j = choose|j: int| 0 <= j < s.len() && s[j] == y;
                assert(init[j] == y);
            }
            if init.contains(y) {
                let j = choose|j: int| 0 <= j < init.len() && init[j] == y;
                assert(s[j] == y);
            }
            assert(s[s.len() - 1] == s.last());
        }
        if distinct(s) {
            assert(distinct(init));
            assert(!init.contains(s.last())) by {
                if init.contains(s.last()) {
                    let j = choose|j: int| 0 <= j < init.len() && init[j] == s.last();
                    assert(s[j] == s[s.len() - 1]);
                }
            }
        }
    }
}

/// The edits of `fits_desc` all lie within the text.
proof fn lemma_fits_within(es: Seq<EditView>, n: nat, k: int)
    requires
        fits_desc(es, n),
        0 <= k < es.len(),
    ensures
        span_end(es[k]) <= n,
    decreases k,
{
    lemma_fits_at(es, n, k);
    if k > 0 {
        lemma_fits_at(es, n, k - 1);
        lemma_fits_within(es, n, k - 1);
    }
}

/// An insertion of a set of distinct edits, around whose position every
/// other edit keeps clear of the text from `a` to `q`, ends up between that
/// text's two parts in the result of applying the set.
pub proof fn lemma_edit_anchored(buf: Seq<char>, s: Seq<EditView>, e: EditView, a: nat, q: nat, out: Seq<char>)
    requires
        apply_edits(buf, s) == Some(out),
        s.contains(e),
        distinct(s),
        e.kind == EditKind::Insert,
        a <= e.start_pos <= q <= buf.len(),
        forall|f: EditView| #[trigger] s.contains(f) && f != e ==> clear_of(f, a, e.start_pos, q),
    ensures
        occurs_in(
            out,
            buf.subrange(a as int, e.start_pos as int) + e.content + buf.subrange(
                e.start_pos as int,
                q as int,
            ),
        ),
{
    let es = sort_desc(s);
    lemma_sort_desc_elems(s);
    assert(es.contains(e));
    let k = choose|k: int| 0 <= k < es.len() && es[k] == e;
    assert forall|j: int| 0 <= j < es.len() && j != k implies clear_of(
        #[trigger] es[j],
        a,
        es[k].start_pos,
        q,
    ) by {
        assert(es.contains(es[j]));
        if j < k {
            assert(es[j] != es[k]);
        } else {
            assert(es[k] != es[j]);
        }
    }
    lemma_insertion_anchored(buf, es, k, a, q);
}

/// Offering one edit keeps those already held, and keeps keys unique.
proof fn lemma_add_edit_keeps(s: Seq<EditView>, e: EditView)
    ensures
        forall|y: EditView| s.contains(y) ==> #[trigger] add_edit(s, e).contains(y),
        keys_unique(s) ==> keys_unique(add_edit(s, e)),
{
    lemma_add_edit_idempotent(s, e, e);
    if !has_key(s, e.start_pos, e.content) {
        assert forall|y: EditView| s.contains(y) implies #[trigger] add_edit(s, e).contains(y) by {
            let j = choose|j: int| 0 <= j < s.len() && s[j] == y;
            assert(s.push(e)[j] == y);
        }
    }
}

/// Offering more edits keeps those already held, and keeps keys unique.
pub proof fn lemma_add_edits_keeps(s: Seq<EditView>, es: Seq<EditView>)
    ensures
        forall|y: EditView| s.contains(y) ==> #[trigger] add_edits(s, es).contains(y),
        keys_unique(s) ==> keys_unique(add_edits(s, es)),
    decreases es.len(),
{
    if es.len() > 0 {
        let s1 = add_edit(s, es[0]);
        lemma_add_edit_keeps(s, es[0]);
        lemma_add_edits_keeps(s1, es.drop_first());
        assert(add_edits(s, es) == add_edits(s1, es.drop_first()));
        assert forall|y: EditView| s.contains(y) implies #[trigger] add_edits(s, es).contains(y) by {
            assert(s1.contains(y));
            assert(add_edits(s1, es.drop_first()).contains(y));
        }
    } else {
        assert(add_edits(s, es) == s);
    }
}

/// Edits with unique keys are distinct.
pub proof fn lemma_keys_unique_distinct(s: Seq<EditView>)
    requires
        keys_unique(s),
    ensures
        distinct(s),
{
    assert forall|i: int, j: int| 0 <= i < j < s.len() implies s[i] != s[j] by {
        assert(!(s[i].start_pos == s[j].start_pos && s[i].content == s[j].content));
    }
}

/// Every edit of a set that applies lies within the text.
pub proof fn lemma_applied_within(buf: Seq<char>, s: Seq<EditView>, e: EditView)
    requires
        apply_edits(buf, s) is Some,
        s.contains(e),
    ensures
        span_end(e) <= buf.len(),
{
    let es = sort_desc(s);
    lemma_sort_desc_elems(s);
    assert(es.contains(e));
    let k = choose|k: int| 0 <= k < es.len() && es[k] == e;
    lemma_fits_within(es, buf.len(), k);
}

} // verus!
