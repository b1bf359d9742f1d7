//! The format negotiator: given the capability set one side requests, derive
//! the candidate set the other side can be offered, and intersect it with an
//! optional further filter.

use vstd::prelude::*;

use crate::caps::CapsAlternative;
use crate::caps::alts_view;
use crate::caps::CapsAlternativeView;
use crate::caps::CapsSet;
use crate::caps::FractionRange;
use crate::caps::IntRange;
use crate::caps::PixelFormat;
use crate::caps::frac_le;
use crate::caps::fraction_le;

verus! {

/// Which of the filter's two connection points a negotiation request comes
/// from.
#[derive(Clone, Copy, Debug, PartialEq, Eq, Structural)]
pub enum Direction {
    /// The host proposes capabilities requested downstream and asks what the
    /// filter can accept upstream.
    Output,
    /// The host proposes capabilities of the upstream producer and asks what
    /// the filter can advertise downstream.
    Input,
}

/// One alternative with its pixel format forced to `f`; all other fields are
/// kept.
pub open spec fn force_format(a: CapsAlternativeView, f: PixelFormat) -> CapsAlternativeView {
    CapsAlternativeView { formats: seq![f], ..a }
}

/// Every alternative with its pixel format forced to `f`.
pub open spec fn forced(s: Seq<CapsAlternativeView>, f: PixelFormat) -> Seq<CapsAlternativeView> {
    s.map_values(|a: CapsAlternativeView| force_format(a, f))
}

/// The candidate set derived from a request. From the output side every
/// alternative is forced to packed color (what the input side accepts). From
/// the input side the filter advertises both disguises of the input: a
/// grayscale copy of every alternative, then a packed-color copy of every
/// alternative.
pub open spec fn candidates(direction: Direction, requested: Seq<CapsAlternativeView>) -> Seq<
    CapsAlternativeView,
> {
    match direction {
        Direction::Output => forced(requested, PixelFormat::Bgrx),
        Direction::Input => forced(requested, PixelFormat::Gray8) + forced(
            requested,
            PixelFormat::Bgrx,
        ),
    }
}

/// The format tokens both lists name, in the first list's order.
pub open spec fn formats_intersect(a: Seq<PixelFormat>, b: Seq<PixelFormat>) -> Seq<PixelFormat>
    decreases a.len(),
{
    if a.len() == 0 {
        Seq::empty()
    } else {
        formats_intersect(a.drop_last(), b) + if b.contains(a.last()) {
            seq![a.last()]
        } else {
            Seq::empty()
        }
    }
}

/// The overlap of two dimension ranges, `None` when they do not meet.
pub open spec fn int_range_intersect(a: IntRange, b: IntRange) -> Option<IntRange> {
    let lo = if a.lo >= b.lo {
        a.lo
    } else {
        b.lo
    };
    let hi = if a.hi <= b.hi {
        a.hi
    } else {
        b.hi
    };
    if lo <= hi {
        Some(IntRange { lo, hi })
    } else {
        None
    }
}

/// The overlap of two frame-rate ranges, `None` when they do not meet. Ties
/// keep the first operand's bound.
pub open spec fn frac_range_intersect(a: FractionRange, b: FractionRange) -> Option<FractionRange> {
    let lo = if frac_le(b.lo, a.lo) {
        a.lo
    } else {
        b.lo
    };
    let hi = if frac_le(a.hi, b.hi) {
        a.hi
    } else {
        b.hi
    };
    if frac_le(lo, hi) {
        Some(FractionRange { lo, hi })
    } else {
        None
    }
}

/// The overlap of two alternatives: the shared format tokens and the
/// overlapping ranges. `None` when any of the four fields has no overlap.
pub open spec fn alt_intersect(a: CapsAlternativeView, b: CapsAlternativeView) -> Option<
    CapsAlternativeView,
> {
    let fs = formats_intersect(a.formats, b.formats);
    if fs.len() == 0 {
        None
    } else {
        match (int_range_intersect(a.width, b.width), int_range_intersect(a.height, b.height), frac_range_intersect(a.framerate, b.framerate)) {
            (Some(w), Some(h), Some(fr)) => Some(
                CapsAlternativeView { formats: fs, width: w, height: h, framerate: fr },
            ),
            _ => None,
        }
    }
}

/// The non-empty overlaps of `a` with each alternative of `b`, in `b`'s
/// order.
pub open spec fn alt_intersect_all(a: CapsAlternativeView, b: Seq<CapsAlternativeView>) -> Seq<
    CapsAlternativeView,
>
    decreases b.len(),
{
    if b.len() == 0 {
        Seq::empty()
    } else {
        alt_intersect_all(a, b.drop_last()) + match alt_intersect(a, b.last()) {
            Some(x) => seq![x],
            None => Seq::empty(),
        }
    }
}

/// First-match intersection of two capability sets: the non-empty pairwise
/// overlaps, ordered by the first operand first.
pub open spec fn caps_intersect_first(
    a: Seq<CapsAlternativeView>,
    b: Seq<CapsAlternativeView>,
) -> Seq<CapsAlternativeView>
    decreases a.len(),
{
    if a.len() == 0 {
        Seq::empty()
    } else {
        caps_intersect_first(a.drop_last(), b) + alt_intersect_all(a.last(), b)
    }
}

/// The value of an optional further filter.
pub open spec fn opt_caps_view(f: Option<&CapsSet>) -> Option<Seq<CapsAlternativeView>> {
    match f {
        Some(c) => Some(c@),
        None => None,
    }
}

/// What negotiation returns: the derived candidate set, intersected with the
/// further filter when one is supplied (the filter is the first operand).
pub open spec fn spec_negotiate(
    direction: Direction,
    requested: Seq<CapsAlternativeView>,
    filter: Option<Seq<CapsAlternativeView>>,
) -> Seq<CapsAlternativeView> {
    match filter {
        None => candidates(direction, requested),
        Some(f) => caps_intersect_first(f, candidates(direction, requested)),
    }
}

/// Law: negotiation from the output side, without a further filter, returns
/// the requested set with every alternative's format forced to the packed
/// color token and its width, height and frame-rate ranges unchanged.
pub proof fn lemma_negotiate_from_output(requested: Seq<CapsAlternativeView>)
    ensures
        spec_negotiate(Direction::Output, requested, None).len() == requested.len(),
        forall|i: int|
            0 <= i < requested.len() ==> {
                let r = #[trigger] spec_negotiate(Direction::Output, requested, None)[i];
                &&& r.formats == seq![PixelFormat::Bgrx]
                &&& r.width == requested[i].width
                &&& r.height == requested[i].height
                &&& r.framerate == requested[i].framerate
            },
{
}

/// Law: negotiation from the input side, without a further filter, returns
/// exactly two alternatives per requested alternative with all other fields
/// unchanged: a grayscale copy (first half, in request order), then a packed
/// color copy (second half, in request order).
pub proof fn lemma_negotiate_from_input(requested: Seq<CapsAlternativeView>)
    ensures
        spec_negotiate(Direction::Input, requested, None).len() == 2 * requested.len(),
        forall|k: int|
            0 <= k < requested.len() ==> {
                let r = #[trigger] spec_negotiate(Direction::Input, requested, None)[k];
                &&& r.formats == seq![PixelFormat::Gray8]
                &&& r.width == requested[k].width
                &&& r.height == requested[k].height
                &&& r.framerate == requested[k].framerate
            },
        forall|k: int|
            requested.len() <= k < 2 * requested.len() ==> {
                let r = #[trigger] spec_negotiate(Direction::Input, requested, None)[k];
                &&& r.formats == seq![PixelFormat::Bgrx]
                &&& r.width == requested[k - requested.len()].width
                &&& r.height == requested[k - requested.len()].height
                &&& r.framerate == requested[k - requested.len()].framerate
            },
{
}

/// No format token of `a` occurs in `b`.
pub open spec fn formats_disjoint(a: Seq<PixelFormat>, b: Seq<PixelFormat>) -> bool {
    forall|f: PixelFormat| a.contains(f) ==> !b.contains(f)
}

/// No alternative of `a` shares a format token with any alternative of `b`.
pub open spec fn caps_formats_disjoint(
    a: Seq<CapsAlternativeView>,
    b: Seq<CapsAlternativeView>,
) -> bool {
    forall|i: int, j: int|
        0 <= i < a.len() && 0 <= j < b.len() ==> formats_disjoint(
            (#[trigger] a[i]).formats,
            (#[trigger] b[j]).formats,
        )
}

proof fn lemma_formats_intersect_disjoint(a: Seq<PixelFormat>, b: Seq<PixelFormat>)
    requires
        formats_disjoint(a, b),
    ensures
        formats_intersect(a, b).len() == 0,
    decreases a.len(),
{
    if a.len() > 0 {
        assert(formats_disjoint(a.drop_last(), b)) by {
            assert forall|f: PixelFormat| a.drop_last().contains(f) implies !b.contains(f) by {
                let k = choose|k: int|
                    0 <= k < a.drop_last().len() && a.drop_last()[k] == f;
                assert(a[k] == f);
                assert(a.contains(f));
            };
        };
        lemma_formats_intersect_disjoint(a.drop_last(), b);
        assert(a[a.len() - 1] == a.last());
        assert(a.contains(a.last()));
    }
}

proof fn lemma_alt_intersect_all_disjoint(x: CapsAlternativeView, b: Seq<CapsAlternativeView>)
    requires
        forall|j: int| 0 <= j < b.len() ==> formats_disjoint(x.formats, (#[trigger] b[j]).formats),
    ensures
        alt_intersect_all(x, b).len() == 0,
    decreases b.len(),
{
    if b.len() > 0 {
        lemma_alt_intersect_all_disjoint(x, b.drop_last());
        assert(b[b.len() - 1] == b.last());
        lemma_formats_intersect_disjoint(x.formats, b.last().formats);
    }
}

/// First-match intersection of capability sets without a shared format token
/// is empty.
pub proof fn lemma_caps_intersect_disjoint(
    a: Seq<CapsAlternativeView>,
    b: Seq<CapsAlternativeView>,
)
    requires
        caps_formats_disjoint(a, b),
    ensures
        caps_intersect_first(a, b).len() == 0,
    decreases a.len(),
{
    if a.len() > 0 {
        assert(caps_formats_disjoint(a.drop_last(), b)) by {
            assert forall|i: int, j: int|
                0 <= i < a.drop_last().len() && 0 <= j < b.len() implies formats_disjoint(
                (#[trigger] a.drop_last()[i]).formats,
                (#[trigger] b[j]).formats,
            ) by {
                assert(a.drop_last()[i] == a[i]);
            };
        };
        lemma_caps_intersect_disjoint(a.drop_last(), b);
        assert(a[a.len() - 1] == a.last());
        lemma_alt_intersect_all_disjoint(a.last(), b);
    }
}

/// Law: a further filter that shares no format token with the derived
/// candidate set makes negotiation return the empty set.
pub proof fn lemma_negotiate_disjoint_filter(
    direction: Direction,
    requested: Seq<CapsAlternativeView>,
    filter: Seq<CapsAlternativeView>,
)
    requires
        caps_formats_disjoint(filter, candidates(direction, requested)),
    ensures
        spec_negotiate(direction, requested, Some(filter)).len() == 0,
{
    lemma_caps_intersect_disjoint(filter, candidates(direction, requested));
}

/// Whether `v` names the format token `f`.
fn contains_format(v: &Vec<PixelFormat>, f: PixelFormat) -> (r: bool)
    ensures
        r == v@.contains(f),
{
    let mut i: usize = 0;
    while i < v.len()
        invariant
            0 <= i <= v@.len(),
            forall|j: int| 0 <= j < i ==> v@[j] != f,
        decreases v@.len() - i,
    {
        if v[i] == f {
            return true;
        }
        i = i + 1;
    }
    false
}

/// The shared format tokens of two lists, in the first list's order.
fn intersect_formats(a: &Vec<PixelFormat>, b: &Vec<PixelFormat>) -> (r: Vec<PixelFormat>)
    ensures
        r@ == formats_intersect(a@, b@),
{
    let mut r: Vec<PixelFormat> = Vec::new();
    let mut i: usize = 0;
    while i < a.len()
        invariant
            0 <= i <= a@.len(),
            r@ == formats_intersect(a@.subrange(0, i as int), b@),
        decreases a@.len() - i,
    {
        let ghost pre = a@.subrange(0, i as int);
        let ghost post = a@.subrange(0, i as int + 1);
        proof {
            assert(post.drop_last() =~= pre);
            assert(post.last() == a@[i as int]);
        }
        if contains_format(b, a[i]) {
            r.push(a[i]);
            proof {
                assert(r@ =~= formats_intersect(post, b@));
            }
        } else {
            proof {
                assert(r@ =~= formats_intersect(post, b@));
            }
        }
        i = i + 1;
    }
    proof {
        assert(a@.subrange(0, a@.len() as int) =~= a@);
    }
    r
}

/// The overlap of two dimension ranges.
fn intersect_int_range(a: IntRange, b: IntRange) -> (r: Option<IntRange>)
    ensures
        r == int_range_intersect(a, b),
{
    let lo = if a.lo >= b.lo {
        a.lo
    } else {
        b.lo
    };
    let hi = if a.hi <= b.hi {
        a.hi
    } else {
        b.hi
    };
    if lo <= hi {
        Some(IntRange { lo, hi })
    } else {
        None
    }
}

/// The overlap of two frame-rate ranges.
fn intersect_frac_range(a: FractionRange, b: FractionRange) -> (r: Option<FractionRange>)
    ensures
        r == frac_range_intersect(a, b),
{
    let lo = if fraction_le(b.lo, a.lo) {
        a.lo
    } else {
        b.lo
    };
    let hi = if fraction_le(a.hi, b.hi) {
        a.hi
    } else {
        b.hi
    };
    if fraction_le(lo, hi) {
        Some(FractionRange { lo, hi })
    } else {
        None
    }
}

/// The value carried by an optional alternative.
pub open spec fn opt_alt_view(o: Option<CapsAlternative>) -> Option<CapsAlternativeView> {
    match o {
        Some(a) => Some(a@),
        None => None,
    }
}

/// The overlap of two alternatives.
fn intersect_alternatives(a: &CapsAlternative, b: &CapsAlternative) -> (r: Option<CapsAlternative>)
    ensures
        opt_alt_view(r) == alt_intersect(a@, b@),
{
    let fs = intersect_formats(&a.formats, &b.formats);
    if fs.len() == 0 {
        return None;
    }
    let w = match intersect_int_range(a.width, b.width) {
        Some(w) => w,
        None => {
            return None;
        },
    };
    let h = match intersect_int_range(a.height, b.height) {
        Some(h) => h,
        None => {
            return None;
        },
    };
    let fr = match intersect_frac_range(a.framerate, b.framerate) {
        Some(fr) => fr,
        None => {
            return None;
        },
    };
    let alt = CapsAlternative { formats: fs, width: w, height: h, framerate: fr };
    proof {
        assert(opt_alt_view(Some(alt)) =~~= alt_intersect(a@, b@));
    }
    Some(alt)
}

/// First-match intersection of two capability sets.
pub fn caps_intersect(a: &CapsSet, b: &CapsSet) -> (r: CapsSet)
    ensures
        r@ == caps_intersect_first(a@, b@),
{
    let mut out: Vec<CapsAlternative> = Vec::new();
    let ghost bv = b@;
    let mut i: usize = 0;
    while i < a.alternatives.len()
        invariant
            0 <= i <= a.alternatives@.len(),
            a@.len() == a.alternatives@.len(),
            b@ == bv,
            alts_view(out@) == caps_intersect_first(
                a@.subrange(0, i as int),
                bv,
            ),
        decreases a.alternatives@.len() - i,
    {
        let ghost apre = a@.subrange(0, i as int);
        let ghost apost = a@.subrange(0, i as int + 1);
        proof {
            assert(apost.drop_last() =~= apre);
            assert(apost.last() == a@[i as int]);
        }
        let mut j: usize = 0;
        while j < b.alternatives.len()
            invariant
                0 <= j <= b.alternatives@.len(),
                b@.len() == b.alternatives@.len(),
                b@ == bv,
                a@[i as int] == a.alternatives@[i as int]@,
                0 <= i < a.alternatives@.len(),
                alts_view(out@) == caps_intersect_first(
                    a@.subrange(0, i as int),
                    bv,
                ) + alt_intersect_all(a@[i as int], bv.subrange(0, j as int)),
            decreases b.alternatives@.len() - j,
        {
            let ghost bpre = bv.subrange(0, j as int);
            let ghost bpost = bv.subrange(0, j as int + 1);
            proof {
                assert(bpost.drop_last() =~= bpre);
                assert(bpost.last() == bv[j as int]);
            }
            let ghost out_pre = out@;
            match intersect_alternatives(&a.alternatives[i], &b.alternatives[j]) {
                Some(x) => {
                    proof {
                        assert(alt_intersect(a@[i as int], bv[j as int]) == Some(x@));
                    }
                    out.push(x);
                    proof {
                        assert(alt_intersect_all(a@[i as int], bpost) =~= alt_intersect_all(
                            a@[i as int],
                            bpre,
                        ).push(x@));
                        assert(alts_view(out@) =~= alts_view(out_pre).push(x@));
                        assert(alts_view(out@) =~= caps_intersect_first(
                            a@.subrange(0, i as int),
                            bv,
                        ) + alt_intersect_all(a@[i as int], bpost));
                    }
                },
                None => {
                    proof {
                        assert(alt_intersect(a@[i as int], bv[j as int]) is None);
                        assert(alt_intersect_all(a@[i as int], bpost) =~= alt_intersect_all(
                            a@[i as int],
                            bpre,
                        ));
                        assert(alts_view(out@) =~= caps_intersect_first(
                            a@.subrange(0, i as int),
                            bv,
                        ) + alt_intersect_all(a@[i as int], bpost));
                    }
                },
            }
            j = j + 1;
        }
        proof {
            assert(bv.subrange(0, bv.len() as int) =~= bv);
            assert(alts_view(out@) =~= caps_intersect_first(apost, bv));
        }
        i = i + 1;
    }
    proof {
        assert(a@.subrange(0, a@.len() as int) =~= a@);
    }
    CapsSet { alternatives: out }
}

/// A copy of every requested alternative with its format forced to `f`,
/// appended to `out`.
fn push_forced(out: &mut Vec<CapsAlternative>, requested: &CapsSet, f: PixelFormat)
    ensures
        alts_view(final(out)@) == alts_view(old(out)@) + forced(requested@, f),
{
    let ghost base = alts_view(old(out)@);
    let mut i: usize = 0;
    while i < requested.alternatives.len()
        invariant
            0 <= i <= requested.alternatives@.len(),
            requested@.len() == requested.alternatives@.len(),
            alts_view(out@) == base + forced(
                requested@.subrange(0, i as int),
                f,
            ),
        decreases requested.alternatives@.len() - i,
    {
        let a = &requested.alternatives[i];
        let mut formats: Vec<PixelFormat> = Vec::new();
        formats.push(f);
        let alt = CapsAlternative {
            formats,
            width: a.width,
            height: a.height,
            framerate: a.framerate,
        };
        proof {
            assert(alt@ =~~= force_format(requested@[i as int], f));
        }
        let ghost out_pre = out@;
        out.push(alt);
        proof {
            let ghost pre = requested@.subrange(0, i as int);
            let ghost post = requested@.subrange(0, i as int + 1);
            assert(post.drop_last() =~= pre);
            assert(forced(post, f) =~= forced(pre, f).push(force_format(requested@[i as int], f)));
            assert(alts_view(out@) =~= alts_view(out_pre).push(alt@));
            assert(alts_view(out@) =~= base + forced(post, f));
        }
        i = i + 1;
    }
    proof {
        assert(requested@.subrange(0, requested@.len() as int) =~= requested@);
    }
}

/// Derive the candidate capability set for the other side from a request,
/// and intersect it with the further `filter` when one is supplied.
///
/// The possibly empty result signals "no usable format" to the host when it
/// has no alternative left.
pub fn negotiate(direction: Direction, requested: &CapsSet, filter: Option<&CapsSet>) -> (r:
    CapsSet)
    ensures
        r@ == spec_negotiate(direction, requested@, opt_caps_view(filter)),
{
    let mut alternatives: Vec<CapsAlternative> = Vec::new();
    match direction {
        Direction::Output => {
            push_forced(&mut alternatives, requested, PixelFormat::Bgrx);
        },
        Direction::Input => {
            push_forced(&mut alternatives, requested, PixelFormat::Gray8);
            push_forced(&mut alternatives, requested, PixelFormat::Bgrx);
        },
    }
    let cand = CapsSet { alternatives };
    proof {
        assert(cand@ =~= candidates(direction, requested@));
    }
    match filter {
        Some(f) => caps_intersect(f, &cand),
        None => cand,
    }
}

} // verus!
