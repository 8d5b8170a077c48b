//! Which formats the stage can have on one side, given what the neighbour on
//! the other side offers.

use crate::format::{law_intersection_allows_what_both_allow, Candidate, Fraction, Layout};
use vstd::prelude::*;

verus! {

/// The side of the stage that the answer of a negotiation is for.
#[derive(Clone, Copy, Debug, PartialEq, Eq, Structural)]
pub enum Direction {
    /// The candidates are formats of the side where frames go out; the answer
    /// says what the side where frames come in can then take.
    TowardConsumer,
    /// The candidates are formats of the side where frames come in; the
    /// answer says what the side where frames go out can then give.
    TowardProducer,
}

/// The candidates as the consuming side takes them: each with three
/// channels, whatever its layout was, and nothing else changed.
pub open spec fn toward_consumer(candidates: Seq<Candidate>) -> Seq<Candidate> {
    Seq::new(
        candidates.len(),
        |i: int| candidates[i].spec_with_layout(Layout::ThreeChannelInterleaved),
    )
}

/// What the producing side gives for one candidate: for one with three
/// channels its single-channel variant, then the candidate itself; for any
/// other nothing.
pub open spec fn offers(candidate: Candidate) -> Seq<Candidate> {
    if candidate.layout == Layout::ThreeChannelInterleaved {
        seq![candidate.spec_with_layout(Layout::SingleChannelLuma), candidate]
    } else {
        Seq::empty()
    }
}

/// What the producing side gives for the candidates: what it gives for the
/// first, then what it gives for the second, and so on.
pub open spec fn toward_producer(candidates: Seq<Candidate>) -> Seq<Candidate>
    decreases candidates.len(),
{
    if candidates.len() == 0 {
        Seq::empty()
    } else {
        toward_producer(candidates.drop_last()) + offers(candidates.last())
    }
}

/// What a candidate and one entry of a filter have in common, as a list:
/// one format, or none.
pub open spec fn overlap(candidate: Candidate, entry: Candidate) -> Seq<Candidate> {
    match candidate.spec_intersect(&entry) {
        Some(common) => seq![common],
        None => Seq::empty(),
    }
}

/// What is left of a candidate under a filter: what it has in common with
/// each entry of the filter that it has anything in common with, in the
/// order of the entries.
pub open spec fn overlaps(candidate: Candidate, filter: Seq<Candidate>) -> Seq<Candidate>
    decreases filter.len(),
{
    if filter.len() == 0 {
        Seq::empty()
    } else {
        overlaps(candidate, filter.drop_last()) + overlap(candidate, filter.last())
    }
}

/// The candidates under a filter: what is left of the first candidate, then
/// what is left of the second, and so on. Nothing that a candidate and an
/// entry of the filter have in common is left out, and the candidates keep
/// their order; within what is left of one candidate, the entries of the
/// filter keep theirs.
pub open spec fn filtered(candidates: Seq<Candidate>, filter: Seq<Candidate>) -> Seq<Candidate>
    decreases candidates.len(),
{
    if candidates.len() == 0 {
        Seq::empty()
    } else {
        filtered(candidates.drop_last(), filter) + overlaps(candidates.last(), filter)
    }
}

/// Where what candidate `i` and entry `j` of the filter have in common
/// stands in the filtered answer: behind all that is left of the candidates
/// before `i`, and behind what candidate `i` has in common with the entries
/// before `j`.
pub open spec fn place(
    candidates: Seq<Candidate>,
    filter: Seq<Candidate>,
    i: int,
    j: int,
) -> int {
    (filtered(candidates.take(i), filter).len() + overlaps(candidates[i], filter.take(j)).len())
        as int
}

/// The answer of a negotiation: the candidates as the side in `direction`
/// can have them, under the filter where there is one.
pub open spec fn negotiated(
    direction: Direction,
    candidates: Seq<Candidate>,
    filter: Option<Seq<Candidate>>,
) -> Seq<Candidate> {
    let unfiltered = match direction {
        Direction::TowardConsumer => toward_consumer(candidates),
        Direction::TowardProducer => toward_producer(candidates),
    };
    match filter {
        Some(entries) => filtered(unfiltered, entries),
        None => unfiltered,
    }
}

/// Says which formats the side in `direction` can have, given the formats
/// that are offered on the other side. The earlier a format stands in the
/// answer, the more it is preferred. A filter narrows the answer and never
/// reorders it.
pub fn negotiate(
    direction: Direction,
    candidates: &[Candidate],
    filter: Option<&[Candidate]>,
) -> (answer: Vec<Candidate>)
    ensures
        answer@ == negotiated(
            direction,
            candidates@,
            match filter {
                Some(entries) => Some(entries@),
                None => None,
            },
        ),
{
    let unfiltered: Vec<Candidate> = match direction {
        Direction::TowardConsumer => force_three_channels(candidates),
        Direction::TowardProducer => offer_both_layouts(candidates),
    };
    match filter {
        Some(entries) => apply_filter(unfiltered.as_slice(), entries),
        None => unfiltered,
    }
}

/// Gives every candidate three channels.
fn force_three_channels(candidates: &[Candidate]) -> (answer: Vec<Candidate>)
    ensures
        answer@ == toward_consumer(candidates@),
{
    let mut answer: Vec<Candidate> = Vec::new();
    let mut i: usize = 0;
    while i < candidates.len()
        invariant
            i <= candidates@.len(),
            answer@.len() == i,
            forall|k: int|
                0 <= k < i ==> answer@[k] == candidates@[k].spec_with_layout(
                    Layout::ThreeChannelInterleaved,
                ),
        decreases candidates@.len() - i,
    {
        answer.push(candidates[i].with_layout(Layout::ThreeChannelInterleaved));
        i += 1;
    }
    answer
}

/// Gives for every candidate with three channels its single-channel variant
/// and the candidate itself.
fn offer_both_layouts(candidates: &[Candidate]) -> (answer: Vec<Candidate>)
    ensures
        answer@ == toward_producer(candidates@),
{
    let mut answer: Vec<Candidate> = Vec::new();
    let mut i: usize = 0;
    while i < candidates.len()
        invariant
            i <= candidates@.len(),
            answer@ == toward_producer(candidates@.take(i as int)),
        decreases candidates@.len() - i,
    {
        let candidate: Candidate = candidates[i];
        proof {
            let next = candidates@.take(i + 1);
            assert(next.drop_last() =~= candidates@.take(i as int));
        }
        match candidate.layout {
            Layout::ThreeChannelInterleaved => {
                answer.push(candidate.with_layout(Layout::SingleChannelLuma));
                answer.push(candidate);
            },
            _ => {},
        }
        i += 1;
    }
    assert(candidates@.take(i as int) =~= candidates@);
    answer
}

/// Narrows the candidates to what the filter leaves of them.
fn apply_filter(candidates: &[Candidate], filter: &[Candidate]) -> (answer: Vec<Candidate>)
    ensures
        answer@ == filtered(candidates@, filter@),
{
    let mut answer: Vec<Candidate> = Vec::new();
    let mut i: usize = 0;
    while i < candidates.len()
        invariant
            i <= candidates@.len(),
            answer@ == filtered(candidates@.take(i as int), filter@),
        decreases candidates@.len() - i,
    {
        let candidate: Candidate = candidates[i];
        let ghost before = answer@;
        let mut j: usize = 0;
        while j < filter.len()
            invariant
                j <= filter@.len(),
                answer@ == before + overlaps(candidate, filter@.take(j as int)),
            decreases filter@.len() - j,
        {
            proof {
                let next = filter@.take(j + 1);
                assert(next.drop_last() =~= filter@.take(j as int));
            }
            match candidate.intersect(&filter[j]) {
                Some(common) => {
                    answer.push(common);
                },
                None => {},
            }
            j += 1;
        }
        proof {
            let next = candidates@.take(i + 1);
            assert(next.drop_last() =~= candidates@.take(i as int));
            assert(filter@.take(j as int) =~= filter@);
        }
        i += 1;
    }
    assert(candidates@.take(i as int) =~= candidates@);
    answer
}

/// What the stage takes at all: three channels, of any size and any frame
/// rate.
pub open spec fn spec_accepted_formats() -> Seq<Candidate> {
    seq![Candidate::spec_any_of(Layout::ThreeChannelInterleaved)]
}

/// What the stage gives at all: a single channel first, three channels
/// second, each of any size and any frame rate.
pub open spec fn spec_offered_formats() -> Seq<Candidate> {
    seq![
        Candidate::spec_any_of(Layout::SingleChannelLuma),
        Candidate::spec_any_of(Layout::ThreeChannelInterleaved),
    ]
}

/// The formats that the stage takes on the side where frames come in,
/// before anything is known of its neighbours.
pub fn accepted_formats() -> (formats: Vec<Candidate>)
    ensures
        formats@ == spec_accepted_formats(),
{
    let mut formats: Vec<Candidate> = Vec::new();
    formats.push(Candidate::any_of(Layout::ThreeChannelInterleaved));
    formats
}

/// The formats that the stage gives on the side where frames go out, before
/// anything is known of its neighbours, the preferred one first.
pub fn offered_formats() -> (formats: Vec<Candidate>)
    ensures
        formats@ == spec_offered_formats(),
{
    let mut formats: Vec<Candidate> = Vec::new();
    formats.push(Candidate::any_of(Layout::SingleChannelLuma));
    formats.push(Candidate::any_of(Layout::ThreeChannelInterleaved));
    formats
}

/// What the producing side gives for the first `i` candidates is the start
/// of what it gives for all of them.
proof fn lemma_producer_prefix(candidates: Seq<Candidate>, i: int)
    requires
        0 <= i <= candidates.len(),
    ensures
        toward_producer(candidates.take(i)).is_prefix_of(toward_producer(candidates)),
    decreases candidates.len(),
{
    if i == candidates.len() {
        assert(candidates.take(i) =~= candidates);
    } else {
        assert(candidates.drop_last().take(i) =~= candidates.take(i));
        lemma_producer_prefix(candidates.drop_last(), i);
    }
}

/// Toward the producing side, every candidate with three channels stands in
/// the answer with its single-channel variant directly before it. The two
/// differ in layout only. They stand behind everything that the candidates
/// before them gave.
pub proof fn law_luma_stands_before_its_candidate(candidates: Seq<Candidate>, i: int)
    requires
        0 <= i < candidates.len(),
        candidates[i].layout == Layout::ThreeChannelInterleaved,
    ensures
        ({
            let answer = negotiated(Direction::TowardProducer, candidates, None);
            let at = toward_producer(candidates.take(i)).len() as int;
            &&& at + 1 < answer.len()
            &&& answer[at] == candidates[i].spec_with_layout(Layout::SingleChannelLuma)
            &&& answer[at + 1] == candidates[i]
            &&& answer[at].layout == Layout::SingleChannelLuma
            &&& answer[at].same_geometry(&answer[at + 1])
        }),
{
    let upto = candidates.take(i + 1);
    assert(upto.drop_last() =~= candidates.take(i));
    lemma_producer_prefix(candidates, i + 1);
    let at = toward_producer(candidates.take(i)).len() as int;
    let part = toward_producer(upto);
    assert(part[at] == offers(candidates[i])[0]);
    assert(part[at + 1] == offers(candidates[i])[1]);
}

/// What is left of a candidate under the first `j` entries of a filter is
/// the start of what is left of it under all of them.
proof fn lemma_overlaps_prefix(candidate: Candidate, filter: Seq<Candidate>, j: int)
    requires
        0 <= j <= filter.len(),
    ensures
        overlaps(candidate, filter.take(j)).is_prefix_of(overlaps(candidate, filter)),
    decreases filter.len(),
{
    if j == filter.len() {
        assert(filter.take(j) =~= filter);
    } else {
        assert(filter.drop_last().take(j) =~= filter.take(j));
        lemma_overlaps_prefix(candidate, filter.drop_last(), j);
    }
}

/// What a filter leaves of the first `i` candidates is the start of what it
/// leaves of all of them.
proof fn lemma_filter_prefix(candidates: Seq<Candidate>, filter: Seq<Candidate>, i: int)
    requires
        0 <= i <= candidates.len(),
    ensures
        filtered(candidates.take(i), filter).is_prefix_of(filtered(candidates, filter)),
    decreases candidates.len(),
{
    if i == candidates.len() {
        assert(candidates.take(i) =~= candidates);
    } else {
        assert(candidates.drop_last().take(i) =~= candidates.take(i));
        lemma_filter_prefix(candidates.drop_last(), filter, i);
    }
}

/// The more entries of a filter are looked at, the more is left of a
/// candidate; one more entry adds what the candidate has in common with it.
proof fn lemma_overlaps_grow(candidate: Candidate, filter: Seq<Candidate>, j: int, l: int)
    requires
        0 <= j <= l <= filter.len(),
    ensures
        overlaps(candidate, filter.take(j)).len() <= overlaps(candidate, filter.take(l)).len(),
        overlaps(candidate, filter.take(l)).len() <= overlaps(candidate, filter).len(),
        j < filter.len() ==> overlaps(candidate, filter.take(j + 1)) == overlaps(
            candidate,
            filter.take(j),
        ) + overlap(candidate, filter[j]),
{
    assert(filter.take(l).take(j) =~= filter.take(j));
    lemma_overlaps_prefix(candidate, filter.take(l), j);
    lemma_overlaps_prefix(candidate, filter, l);
    if j < filter.len() {
        assert(filter.take(j + 1).drop_last() =~= filter.take(j));
    }
}

/// The more candidates are looked at, the more a filter leaves; one more
/// candidate adds what is left of it.
proof fn lemma_filtered_grows(candidates: Seq<Candidate>, filter: Seq<Candidate>, i: int, k: int)
    requires
        0 <= i <= k <= candidates.len(),
    ensures
        filtered(candidates.take(i), filter).len() <= filtered(candidates.take(k), filter).len(),
        filtered(candidates.take(k), filter).len() <= filtered(candidates, filter).len(),
        i < candidates.len() ==> filtered(candidates.take(i + 1), filter) == filtered(
            candidates.take(i),
            filter,
        ) + overlaps(candidates[i], filter),
{
    assert(candidates.take(k).take(i) =~= candidates.take(i));
    lemma_filter_prefix(candidates.take(k), filter, i);
    lemma_filter_prefix(candidates, filter, k);
    if i < candidates.len() {
        assert(candidates.take(i + 1).drop_last() =~= candidates.take(i));
    }
}

/// A filter leaves out nothing that a candidate and one of its entries have
/// in common: what candidate `i` and entry `j` share stands in the filtered
/// answer, at its [`place`].
pub proof fn law_filter_keeps_every_overlap(
    candidates: Seq<Candidate>,
    filter: Seq<Candidate>,
    i: int,
    j: int,
)
    requires
        0 <= i < candidates.len(),
        0 <= j < filter.len(),
        candidates[i].spec_intersect(&filter[j]) is Some,
    ensures
        0 <= place(candidates, filter, i, j) < filtered(candidates, filter).len(),
        Some(filtered(candidates, filter)[place(candidates, filter, i, j)])
            == candidates[i].spec_intersect(&filter[j]),
{
    let candidate = candidates[i];
    lemma_overlaps_grow(candidate, filter, j, j + 1);
    lemma_filtered_grows(candidates, filter, i, i + 1);
    lemma_overlaps_prefix(candidate, filter, j + 1);
    lemma_filter_prefix(candidates, filter, i + 1);
    let inner = overlaps(candidate, filter.take(j)).len() as int;
    let outer = filtered(candidates.take(i), filter).len() as int;
    assert(overlaps(candidate, filter.take(j + 1))[inner] == candidate.spec_intersect(
        &filter[j],
    ).unwrap());
    assert(overlaps(candidate, filter)[inner] == overlaps(candidate, filter.take(j + 1))[inner]);
    assert(filtered(candidates.take(i + 1), filter)[outer + inner] == overlaps(
        candidate,
        filter,
    )[inner]);
}

/// A filter never reorders. Of two things that it leaves, the one that
/// comes of the earlier candidate stands first in the answer; where both
/// come of one candidate, the one that comes of the earlier entry of the
/// filter stands first.
pub proof fn law_filter_keeps_order(
    candidates: Seq<Candidate>,
    filter: Seq<Candidate>,
    i: int,
    j: int,
    k: int,
    l: int,
)
    requires
        0 <= i <= k < candidates.len(),
        0 <= j < filter.len(),
        0 <= l < filter.len(),
        i < k || j < l,
        candidates[i].spec_intersect(&filter[j]) is Some,
        candidates[k].spec_intersect(&filter[l]) is Some,
    ensures
        ({
            let answer = filtered(candidates, filter);
            let first = place(candidates, filter, i, j);
            let second = place(candidates, filter, k, l);
            &&& 0 <= first < second < answer.len()
            &&& Some(answer[first]) == candidates[i].spec_intersect(&filter[j])
            &&& Some(answer[second]) == candidates[k].spec_intersect(&filter[l])
        }),
{
    law_filter_keeps_every_overlap(candidates, filter, i, j);
    law_filter_keeps_every_overlap(candidates, filter, k, l);
    lemma_overlaps_grow(candidates[i], filter, j, j + 1);
    if i < k {
        lemma_overlaps_grow(candidates[i], filter, j + 1, j + 1);
        lemma_filtered_grows(candidates, filter, i, i + 1);
        lemma_filtered_grows(candidates, filter, i + 1, k);
    } else {
        lemma_overlaps_grow(candidates[i], filter, j + 1, l);
    }
}

/// Every entry of what is left of a candidate is what the candidate has in
/// common with one entry of the filter; the result is the place of that
/// entry.
proof fn lemma_overlap_origin(candidate: Candidate, filter: Seq<Candidate>, at: int) -> (j: int)
    requires
        0 <= at < overlaps(candidate, filter).len(),
    ensures
        0 <= j < filter.len(),
        candidate.spec_intersect(&filter[j]) == Some(overlaps(candidate, filter)[at]),
        at == overlaps(candidate, filter.take(j)).len(),
    decreases filter.len(),
{
    let rest = filter.drop_last();
    if at < overlaps(candidate, rest).len() {
        let j = lemma_overlap_origin(candidate, rest, at);
        assert(rest.take(j) =~= filter.take(j));
        j
    } else {
        assert(filter.take(filter.len() - 1) =~= rest);
        filter.len() - 1
    }
}

/// A filter adds nothing. Every entry of the filtered answer is what one
/// candidate and one entry of the filter have in common, and it stands at
/// the [`place`] of the two. The result names the two.
pub proof fn law_filter_adds_nothing(
    candidates: Seq<Candidate>,
    filter: Seq<Candidate>,
    at: int,
) -> (origin: (int, int))
    requires
        0 <= at < filtered(candidates, filter).len(),
    ensures
        0 <= origin.0 < candidates.len(),
        0 <= origin.1 < filter.len(),
        candidates[origin.0].spec_intersect(&filter[origin.1]) == Some(
            filtered(candidates, filter)[at],
        ),
        at == place(candidates, filter, origin.0, origin.1),
    decreases candidates.len(),
{
    let rest = candidates.drop_last();
    let kept = filtered(rest, filter).len() as int;
    if at < kept {
        let origin = law_filter_adds_nothing(rest, filter, at);
        assert(rest.take(origin.0) =~= candidates.take(origin.0));
        origin
    } else {
        let j = lemma_overlap_origin(candidates.last(), filter, at - kept);
        assert(candidates.take(candidates.len() - 1) =~= rest);
        (candidates.len() - 1, j)
    }
}

/// A filter drops a candidate exactly if the candidate has nothing in common
/// with any of its entries.
pub proof fn law_filter_drops_what_matches_nothing(candidate: Candidate, filter: Seq<Candidate>)
    ensures
        overlaps(candidate, filter).len() == 0 <==> forall|j: int|
            0 <= j < filter.len() ==> candidate.spec_intersect(&#[trigger] filter[j]) is None,
{
    if overlaps(candidate, filter).len() == 0 {
        assert forall|j: int| 0 <= j < filter.len() implies candidate.spec_intersect(
            &#[trigger] filter[j],
        ) is None by {
            if candidate.spec_intersect(&filter[j]) is Some {
                lemma_overlaps_grow(candidate, filter, j, j + 1);
            }
        }
    } else {
        let j = lemma_overlap_origin(candidate, filter, 0);
        assert(candidate.spec_intersect(&filter[j]) is Some);
    }
}

/// The filtered answer is what the candidates and the filter have in
/// common. A frame of a layout that the stage knows, of some size and some
/// rate, is allowed by an entry of the answer exactly if it is allowed both
/// by a candidate and by an entry of the filter. This holds where every
/// frame rate has a positive denominator.
pub proof fn law_filtered_answer_is_the_intersection(
    candidates: Seq<Candidate>,
    filter: Seq<Candidate>,
    layout: Layout,
    width: int,
    height: int,
    rate: Fraction,
)
    requires
        layout.spec_is_supported(),
        rate.is_positive(),
        forall|i: int| 0 <= i < candidates.len() ==> (#[trigger] candidates[i]).frame_rate.is_positive(),
        forall|j: int| 0 <= j < filter.len() ==> (#[trigger] filter[j]).frame_rate.is_positive(),
    ensures
        (exists|at: int|
            0 <= at < filtered(candidates, filter).len() && (#[trigger] filtered(
                candidates,
                filter,
            )[at]).admits(layout, width, height, rate)) <==> (exists|i: int, j: int|
            0 <= i < candidates.len() && 0 <= j < filter.len() && (#[trigger] candidates[i]).admits(
                layout,
                width,
                height,
                rate,
            ) && (#[trigger] filter[j]).admits(layout, width, height, rate)),
{
    let answer = filtered(candidates, filter);
    if exists|at: int|
        0 <= at < answer.len() && (#[trigger] answer[at]).admits(layout, width, height, rate) {
        let at = choose|at: int|
            0 <= at < answer.len() && (#[trigger] answer[at]).admits(layout, width, height, rate);
        let origin = law_filter_adds_nothing(candidates, filter, at);
        law_intersection_allows_what_both_allow(
            candidates[origin.0],
            filter[origin.1],
            layout,
            width,
            height,
            rate,
        );
        assert(candidates[origin.0].admits(layout, width, height, rate) && filter[origin.1].admits(
            layout,
            width,
            height,
            rate,
        ));
    }
    if exists|i: int, j: int|
        0 <= i < candidates.len() && 0 <= j < filter.len() && (#[trigger] candidates[i]).admits(
            layout,
            width,
            height,
            rate,
        ) && (#[trigger] filter[j]).admits(layout, width, height, rate) {
        let (i, j) = choose|i: int, j: int|
            0 <= i < candidates.len() && 0 <= j < filter.len() && (#[trigger] candidates[i]).admits(
                layout,
                width,
                height,
                rate,
            ) && (#[trigger] filter[j]).admits(layout, width, height, rate);
        law_intersection_allows_what_both_allow(
            candidates[i],
            filter[j],
            layout,
            width,
            height,
            rate,
        );
        law_filter_keeps_every_overlap(candidates, filter, i, j);
        let at = place(candidates, filter, i, j);
        assert(answer[at].admits(layout, width, height, rate));
    }
}

/// Toward the consuming side every entry of the answer has three channels,
/// whatever the layouts of the candidates were, with a filter and without.
/// Without a filter the answer has one entry for each candidate, of the
/// candidate's sizes and frame rates.
pub proof fn law_consumer_side_is_three_channel(
    candidates: Seq<Candidate>,
    filter: Option<Seq<Candidate>>,
)
    ensures
        forall|k: int|
            0 <= k < negotiated(Direction::TowardConsumer, candidates, filter).len() ==> (
            #[trigger] negotiated(Direction::TowardConsumer, candidates, filter)[k]).layout
                == Layout::ThreeChannelInterleaved,
        negotiated(Direction::TowardConsumer, candidates, None).len() == candidates.len(),
        forall|k: int|
            0 <= k < candidates.len() ==> (#[trigger] negotiated(
                Direction::TowardConsumer,
                candidates,
                None,
            )[k]).same_geometry(&candidates[k]),
{
    let answer = negotiated(Direction::TowardConsumer, candidates, filter);
    assert forall|k: int| 0 <= k < answer.len() implies (#[trigger] answer[k]).layout
        == Layout::ThreeChannelInterleaved by {
        match filter {
            Some(entries) => {
                law_filter_adds_nothing(toward_consumer(candidates), entries, k);
            },
            None => {},
        }
    }
}

/// Under a filter too the single-channel variant comes first: whatever the
/// filter leaves of the single-channel variant of a candidate stands in the
/// answer before whatever it leaves of the candidate itself.
pub proof fn law_luma_stays_first_under_a_filter(
    candidates: Seq<Candidate>,
    filter: Seq<Candidate>,
    i: int,
    j: int,
    l: int,
)
    requires
        0 <= i < candidates.len(),
        0 <= j < filter.len(),
        0 <= l < filter.len(),
        candidates[i].layout == Layout::ThreeChannelInterleaved,
        candidates[i].spec_with_layout(Layout::SingleChannelLuma).spec_intersect(&filter[j])
            is Some,
        candidates[i].spec_intersect(&filter[l]) is Some,
    ensures
        ({
            let unfiltered = toward_producer(candidates);
            let answer = negotiated(Direction::TowardProducer, candidates, Some(filter));
            let at = toward_producer(candidates.take(i)).len() as int;
            let first = place(unfiltered, filter, at, j);
            let second = place(unfiltered, filter, at + 1, l);
            &&& 0 <= first < second < answer.len()
            &&& Some(answer[first]) == candidates[i].spec_with_layout(
                Layout::SingleChannelLuma,
            ).spec_intersect(&filter[j])
            &&& Some(answer[second]) == candidates[i].spec_intersect(&filter[l])
        }),
{
    law_luma_stands_before_its_candidate(candidates, i);
    let at = toward_producer(candidates.take(i)).len() as int;
    law_filter_keeps_order(toward_producer(candidates), filter, at, j, at + 1, l);
}

/// Every entry of what the producing side gives has one of the two layouts
/// that the stage writes.
proof fn lemma_producer_layouts(candidates: Seq<Candidate>, k: int)
    requires
        0 <= k < toward_producer(candidates).len(),
    ensures
        toward_producer(candidates)[k].layout.spec_is_supported(),
    decreases candidates.len(),
{
    let before = toward_producer(candidates.drop_last());
    if k < before.len() {
        lemma_producer_layouts(candidates.drop_last(), k);
    }
}

/// Whatever is offered, in either direction, with a filter or without, the
/// answer of a negotiation holds only layouts that the stage can write.
pub proof fn law_answer_layouts_are_supported(
    direction: Direction,
    candidates: Seq<Candidate>,
    filter: Option<Seq<Candidate>>,
)
    ensures
        forall|k: int|
            0 <= k < negotiated(direction, candidates, filter).len() ==> (#[trigger] negotiated(
                direction,
                candidates,
                filter,
            )[k]).layout.spec_is_supported(),
{
    let answer = negotiated(direction, candidates, filter);
    let unfiltered = negotiated(direction, candidates, None);
    assert forall|k: int| 0 <= k < unfiltered.len() implies (
    #[trigger] unfiltered[k]).layout.spec_is_supported() by {
        match direction {
            Direction::TowardConsumer => {},
            Direction::TowardProducer => {
                lemma_producer_layouts(candidates, k);
            },
        }
    }
    assert forall|k: int| 0 <= k < answer.len() implies (
    #[trigger] answer[k]).layout.spec_is_supported() by {
        match filter {
            Some(entries) => {
                law_filter_adds_nothing(unfiltered, entries, k);
            },
            None => {},
        }
    }
}

/// What the producing side gives for two lists of candidates, one after the
/// other, is what it gives for the first and then what it gives for the
/// second.
proof fn lemma_producer_goes_list_by_list(first: Seq<Candidate>, second: Seq<Candidate>)
    ensures
        toward_producer(first + second) == toward_producer(first) + toward_producer(second),
    decreases second.len(),
{
    if second.len() == 0 {
        assert(first + second =~= first);
    } else {
        assert((first + second).drop_last() =~= first + second.drop_last());
        lemma_producer_goes_list_by_list(first, second.drop_last());
    }
}

/// What a filter leaves of two lists of candidates, one after the other, is
/// what it leaves of the first and then what it leaves of the second.
proof fn lemma_filter_goes_list_by_list(
    first: Seq<Candidate>,
    second: Seq<Candidate>,
    filter: Seq<Candidate>,
)
    ensures
        filtered(first + second, filter) == filtered(first, filter) + filtered(second, filter),
    decreases second.len(),
{
    if second.len() == 0 {
        assert(first + second =~= first);
    } else {
        assert((first + second).drop_last() =~= first + second.drop_last());
        lemma_filter_goes_list_by_list(first, second.drop_last(), filter);
    }
}

/// A negotiation can be held list by list: the answer for two lists of
/// candidates, one after the other, is the answer for the first and then
/// the answer for the second, in either direction, with a filter or
/// without. So no candidate has a part in what becomes of another.
pub proof fn law_negotiation_goes_list_by_list(
    direction: Direction,
    first: Seq<Candidate>,
    second: Seq<Candidate>,
    filter: Option<Seq<Candidate>>,
)
    ensures
        negotiated(direction, first + second, filter) == negotiated(direction, first, filter)
            + negotiated(direction, second, filter),
{
    lemma_producer_goes_list_by_list(first, second);
    assert(toward_consumer(first + second) =~= toward_consumer(first) + toward_consumer(second));
    match filter {
        Some(entries) => {
            lemma_filter_goes_list_by_list(
                negotiated(direction, first, None),
                negotiated(direction, second, None),
                entries,
            );
        },
        None => {},
    }
}

/// What the stage gives at all is what negotiation makes of what it takes
/// at all.
pub proof fn law_offer_follows_from_acceptance()
    ensures
        negotiated(Direction::TowardProducer, spec_accepted_formats(), None)
            == spec_offered_formats(),
{
    let accepted = spec_accepted_formats();
    assert(toward_producer(accepted.drop_last()) =~= Seq::<Candidate>::empty());
}

} // verus!
