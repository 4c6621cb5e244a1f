use vstd::prelude::*;

use crate::text::ends_with_crlf;

verus! {

/// A byte-driven machine run over `bs`: each byte takes the state one `step`
/// further and may report an event. Once an event for which `last` holds has
/// been reported, the remaining bytes are left alone.
pub open spec fn run_until<S, E>(
    step: spec_fn(S, u8) -> (S, Option<E>),
    last: spec_fn(E) -> bool,
    s: S,
    bs: Seq<u8>,
) -> (S, Seq<E>)
    decreases bs.len(),
{
    if bs.len() == 0 {
        (s, Seq::empty())
    } else {
        let (s0, es) = run_until(step, last, s, bs.drop_last());
        if es.len() > 0 && last(es.last()) {
            (s0, es)
        } else {
            let (s1, e) = step(s0, bs.last());
            match e {
                Some(x) => (s1, es.push(x)),
                None => (s1, es),
            }
        }
    }
}

/// Running the machine over two pieces of input, one after the other, is
/// running it over the whole: how the input is cut makes no difference.
pub proof fn lemma_run_until_split<S, E>(
    step: spec_fn(S, u8) -> (S, Option<E>),
    last: spec_fn(E) -> bool,
    s: S,
    a: Seq<u8>,
    b: Seq<u8>,
)
    ensures
        run_until(step, last, s, a + b) == ({
            let (s1, e1) = run_until(step, last, s, a);
            if e1.len() > 0 && last(e1.last()) {
                (s1, e1)
            } else {
                let (s2, e2) = run_until(step, last, s1, b);
                (s2, e1 + e2)
            }
        }),
    decreases b.len(),
{
    let (s1, e1) = run_until(step, last, s, a);
    if b.len() == 0 {
        assert(a + b =~= a);
        assert(e1 + Seq::<E>::empty() =~= e1);
    } else {
        assert((a + b).drop_last() =~= a + b.drop_last());
        assert((a + b).last() == b.last());
        lemma_run_until_split(step, last, s, a, b.drop_last());
        if !(e1.len() > 0 && last(e1.last())) {
            let (s2, e2) = run_until(step, last, s1, b.drop_last());
            if e2.len() > 0 {
                assert((e1 + e2).last() == e2.last());
            } else {
                assert(e1 + e2 =~= e1);
            }
            let (s3, e) = step(s2, b.last());
            if let Some(x) = e {
                assert((e1 + e2).push(x) =~= e1 + e2.push(x));
            }
        }
    }
}

/// No CR LF pair in `line`: it cannot end a line early.
pub open spec fn no_crlf(line: Seq<u8>) -> bool {
    forall|i: int| 0 <= i < line.len() - 1 ==> !(#[trigger] line[i] == 13u8 && line[i + 1] == 10u8)
}

/// The machine only collects bytes into its line buffer while they do not end a
/// line: `with_line(p)` is the state whose buffer holds `p`.
pub open spec fn buffers_lines<S, E>(
    step: spec_fn(S, u8) -> (S, Option<E>),
    with_line: spec_fn(Seq<u8>) -> S,
) -> bool {
    forall|p: Seq<u8>, b: u8|
        !ends_with_crlf(p.push(b)) ==> #[trigger] step(with_line(p), b) == (
            with_line(p.push(b)),
            None::<E>,
        )
}

proof fn lemma_line_prefix<S, E>(
    step: spec_fn(S, u8) -> (S, Option<E>),
    last: spec_fn(E) -> bool,
    with_line: spec_fn(Seq<u8>) -> S,
    line: Seq<u8>,
    k: int,
)
    requires
        buffers_lines(step, with_line),
        no_crlf(line),
        0 <= k <= line.len(),
    ensures
        run_until(step, last, with_line(Seq::empty()), line.take(k)) == (
            with_line(line.take(k)),
            Seq::<E>::empty(),
        ),
    decreases k,
{
    if k == 0 {
        assert(line.take(0) =~= Seq::<u8>::empty());
    } else {
        lemma_line_prefix(step, last, with_line, line, k - 1);
        assert(line.take(k).drop_last() =~= line.take(k - 1));
        assert(line.take(k - 1).push(line[k - 1]) =~= line.take(k));
        if k >= 2 {
            assert(!(line[k - 2] == 13u8 && line[k - 1] == 10u8));
        }
        assert(step(with_line(line.take(k - 1)), line[k - 1]) == (
            with_line(line.take(k)),
            None::<E>,
        ));
    }
}

/// A whole line, fed from an empty buffer, is collected byte by byte; its CR LF
/// then makes the machine do what its last step says.
pub proof fn lemma_one_line<S, E>(
    step: spec_fn(S, u8) -> (S, Option<E>),
    last: spec_fn(E) -> bool,
    with_line: spec_fn(Seq<u8>) -> S,
    line: Seq<u8>,
)
    requires
        buffers_lines(step, with_line),
        no_crlf(line),
    ensures
        run_until(step, last, with_line(Seq::empty()), line + seq![13u8, 10u8]) == ({
            let (s1, e) = step(with_line(line.push(13u8)), 10u8);
            (s1, match e {
                Some(x) => seq![x],
                None => Seq::<E>::empty(),
            })
        }),
{
    let n = line.len() as int;
    let s0 = with_line(Seq::empty());
    lemma_line_prefix(step, last, with_line, line, n);
    assert(line.take(n) =~= line);
    let cr = seq![13u8];
    let lf = seq![10u8];
    let s2 = with_line(line.push(13u8));
    assert(run_until(step, last, with_line(line), cr) == (s2, Seq::<E>::empty())) by {
        assert(cr.drop_last() =~= Seq::<u8>::empty());
        assert(run_until(step, last, with_line(line), Seq::<u8>::empty()) == (
            with_line(line),
            Seq::<E>::empty(),
        ));
        assert(!ends_with_crlf(line.push(13u8)));
        assert(step(with_line(line), 13u8) == (s2, None::<E>));
    }
    let (s3, e) = step(s2, 10u8);
    assert(run_until(step, last, s2, lf) == (s3, match e {
        Some(x) => seq![x],
        None => Seq::<E>::empty(),
    })) by {
        assert(lf.drop_last() =~= Seq::<u8>::empty());
        assert(run_until(step, last, s2, Seq::<u8>::empty()) == (s2, Seq::<E>::empty()));
        if let Some(x) = e {
            assert(Seq::<E>::empty().push(x) =~= seq![x]);
        }
    }
    lemma_run_until_split(step, last, s0, line, cr);
    lemma_run_until_split(step, last, s0, line + cr, lf);
    assert(line + cr + lf =~= line + seq![13u8, 10u8]);
    assert(Seq::<E>::empty() + Seq::<E>::empty() =~= Seq::<E>::empty());
    if let Some(x) = e {
        assert(Seq::<E>::empty() + seq![x] =~= seq![x]);
    }
}

} // verus!
