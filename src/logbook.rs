use vstd::prelude::*;
use crate::constants::PAGE_LINES;

verus! {

/// Number of newline bytes in `s`
pub open spec fn newlines(s: Seq<u8>) -> nat
    decreases s.len(),
{
    if s.len() == 0 {
        0
    } else {
        newlines(s.drop_last()) + if s.last() == 10u8 { 1nat } else { 0nat }
    }
}

/// Appending one byte to the last page, after starting a new page if the last one
/// already holds a full screen of lines.
pub open spec fn push_byte(pages: Seq<Seq<u8>>, c: u8) -> Seq<Seq<u8>> {
    if newlines(pages.last()) >= PAGE_LINES {
        pages.push(seq![c])
    } else {
        pages.update(pages.len() - 1, pages.last().push(c))
    }
}

/// The pages after recording `entry` byte by byte
pub open spec fn record_spec(pages: Seq<Seq<u8>>, entry: Seq<u8>) -> Seq<Seq<u8>>
    decreases entry.len(),
{
    if entry.len() == 0 {
        pages
    } else {
        push_byte(record_spec(pages, entry.drop_last()), entry.last())
    }
}

pub proof fn lemma_newlines_concat(a: Seq<u8>, b: Seq<u8>)
    ensures
        newlines(a + b) == newlines(a) + newlines(b),
    decreases b.len(),
{
    if b.len() == 0 {
        assert(a + b =~= a);
    } else {
        lemma_newlines_concat(a, b.drop_last());
        assert((a + b).drop_last() =~= a + b.drop_last());
    }
}

/// A record whose own text holds fewer than a page's worth of newlines opens at most one
/// new page: either the entry is appended to the last page, or the last page is
/// extended by a part of the entry and the rest of the entry makes up one new page.
/// The split comes right after the byte that fills the last page (at once if it was
/// already full). Earlier pages are untouched.
pub proof fn lemma_record_splits_once(pages: Seq<Seq<u8>>, entry: Seq<u8>)
    requires
        pages.len() >= 1,
        newlines(entry) < PAGE_LINES,
    ensures
        ({
            let r = record_spec(pages, entry);
            let n = pages.len() as int;
            &&& r.subrange(0, n - 1) == pages.subrange(0, n - 1)
            &&& (r.len() == n ==> r[n - 1] == pages[n - 1] + entry)
            &&& (r.len() == n && entry.len() > 0 ==> newlines(pages[n - 1] + entry.drop_last()) < PAGE_LINES)
            &&& (r.len() == n + 1 ==> {
                &&& exists|k: int| 0 <= k < entry.len()
                    && r[n - 1] == pages[n - 1] + entry.subrange(0, k)
                    && r[n] == entry.subrange(k, entry.len() as int)
                    && newlines(r[n - 1]) >= PAGE_LINES
                    && (k == 0 || newlines(pages[n - 1] + entry.subrange(0, k - 1)) < PAGE_LINES)
            })
            &&& (r.len() == n || r.len() == n + 1)
        }),
    decreases entry.len(),
{
    let n = pages.len() as int;
    if entry.len() == 0 {
        assert(pages[n - 1] + entry =~= pages[n - 1]);
    } else {
        let prev = entry.drop_last();
        let c = entry.last();
        lemma_newlines_concat(prev, seq![c]);
        assert(prev + seq![c] =~= entry);
        lemma_record_splits_once(pages, prev);
        let q = record_spec(pages, prev);
        let r = record_spec(pages, entry);
        assert(r == push_byte(q, c));
        if q.len() == n {
            assert(q[n - 1] == pages[n - 1] + prev);
            if newlines(q.last()) >= PAGE_LINES {
                if prev.len() > 0 {
                    assert(entry.subrange(0, prev.len() - 1) =~= prev.drop_last());
                }
                assert(r.subrange(0, n - 1) =~= pages.subrange(0, n - 1));
                assert(r[n - 1] == pages[n - 1] + entry.subrange(0, prev.len() as int));
                assert(r[n] =~= entry.subrange(prev.len() as int, entry.len() as int));
            } else {
                assert(r.subrange(0, n - 1) =~= pages.subrange(0, n - 1));
                assert(r[n - 1] =~= pages[n - 1] + entry);
                assert(entry.drop_last() =~= prev);
            }
        } else {
            let k = choose|k: int| 0 <= k < prev.len()
                && q[n - 1] == pages[n - 1] + prev.subrange(0, k)
                && q[n] == prev.subrange(k, prev.len() as int)
                && newlines(q[n - 1]) >= PAGE_LINES
                && (k == 0 || newlines(pages[n - 1] + prev.subrange(0, k - 1)) < PAGE_LINES);
            if k > 0 {
                assert(prev.subrange(0, k - 1) =~= entry.subrange(0, k - 1));
            }
            // the part of the entry on the last old page holds at least one newline
            lemma_newlines_concat(pages[n - 1], prev.subrange(0, k));
            lemma_newlines_concat(prev.subrange(0, k), prev.subrange(k, prev.len() as int));
            assert(prev =~= prev.subrange(0, k) + prev.subrange(k, prev.len() as int));
            assert(newlines(q[n]) < PAGE_LINES);
            assert(r.subrange(0, n - 1) =~= pages.subrange(0, n - 1));
            assert(r[n - 1] == pages[n - 1] + entry.subrange(0, k)) by {
                assert(prev.subrange(0, k) =~= entry.subrange(0, k));
            }
            assert(r[n] =~= entry.subrange(k, entry.len() as int));
        }
    }
}

/// `x` is a prefix of `y`
pub open spec fn prefix(x: Seq<u8>, y: Seq<u8>) -> bool {
    x.len() <= y.len() && y.subrange(0, x.len() as int) == x
}

/// The logbook `after` grew from `before` by appending only: earlier pages are kept and
/// the last page of `before` begins its counterpart in `after`
pub open spec fn extends(after: Seq<Seq<u8>>, before: Seq<Seq<u8>>) -> bool {
    &&& before.len() >= 1
    &&& after.len() >= before.len()
    &&& forall|i: int| 0 <= i < before.len() - 1 ==> #[trigger] after[i] == before[i]
    &&& prefix(before[before.len() - 1], after[before.len() - 1])
}

pub proof fn lemma_extends_trans(a: Seq<Seq<u8>>, b: Seq<Seq<u8>>, c: Seq<Seq<u8>>)
    requires
        extends(b, a),
        extends(c, b),
    ensures
        extends(c, a),
{
    let n = a.len() - 1;
    if a.len() == b.len() {
        let x = a[n];
        let y = b[n];
        let z = c[n];
        assert(z.subrange(0, x.len() as int) =~= z.subrange(0, y.len() as int).subrange(0, x.len() as int));
    } else {
        assert(c[n] == b[n]);
    }
}

/// Recording only appends to the logbook.
pub proof fn lemma_record_extends(pages: Seq<Seq<u8>>, entry: Seq<u8>)
    requires
        pages.len() >= 1,
    ensures
        extends(record_spec(pages, entry), pages),
        record_spec(pages, entry).len() >= 1,
    decreases entry.len(),
{
    if entry.len() == 0 {
        assert(pages[pages.len() - 1].subrange(0, pages[pages.len() - 1].len() as int) =~= pages[pages.len() - 1]);
    } else {
        lemma_record_extends(pages, entry.drop_last());
        let q = record_spec(pages, entry.drop_last());
        let r = record_spec(pages, entry);
        let m = q.len() - 1;
        if newlines(q.last()) < PAGE_LINES {
            assert(r[m].subrange(0, q[m].len() as int) =~= q[m]);
        } else {
            assert(r[m].subrange(0, q[m].len() as int) =~= q[m]);
        }
        assert(extends(r, q));
        lemma_extends_trans(pages, q, r);
    }
}

} // verus!
