//! Splitting one detector result into the face nearest the frame centre and
//! the remaining faces.

use vstd::prelude::*;
use crate::geometry::{AxisDistance, Point, Rect};

verus! {

/// The valid detections of one frame, split into the nearest one and the
/// others.
#[derive(Clone, Debug)]
pub struct SelectionResult {
    pub nearest: Rect,
    pub rest: Vec<Rect>,
}

/// The mathematical value of a selection.
pub struct Partition {
    pub nearest: Rect,
    pub rest: Seq<Rect>,
}

impl View for SelectionResult {
    type V = Partition;

    open spec fn view(&self) -> Partition {
        Partition { nearest: self.nearest, rest: self.rest@ }
    }
}

/// The detections that count, in detector order.
pub open spec fn valid_detections(s: Seq<Rect>) -> Seq<Rect> {
    s.filter(|r: Rect| r.valid_detection())
}

/// Whether no rectangle of `v` is strictly nearer to `center` than `v[k]`,
/// and `v[k]` is strictly nearer than every rectangle before it: `v[k]` is
/// the first of those whose distance is least.
pub open spec fn first_nearest_at(v: Seq<Rect>, center: Point, k: int) -> bool {
    &&& 0 <= k < v.len()
    &&& forall|j: int| 0 <= j < v.len() ==> !(#[trigger] v[j]).nearer_than(v[k], center)
    &&& forall|j: int| 0 <= j < k ==> v[k].nearer_than(#[trigger] v[j], center)
}

/// `v` split at `k`: `v[k]` is the nearest, and the rest is `v` without it,
/// in the order of `v`.
pub open spec fn selection_at(v: Seq<Rect>, k: int) -> Partition {
    Partition { nearest: v[k], rest: v.remove(k) }
}

/// Whether `p` is the selection for the detections `s`: its nearest face is
/// the first valid detection of least distance to `center`, and its rest is
/// the other valid detections in detector order.
pub open spec fn is_selection(p: Partition, s: Seq<Rect>, center: Point) -> bool {
    exists|k: int| #[trigger]
        first_nearest_at(valid_detections(s), center, k) && p == selection_at(valid_detections(s), k)
}

/// Finds the face nearest to `center` among `faces` and appends the other
/// valid faces, in detector order, to `rest_of_faces`. Returns `None`,
/// leaving `rest_of_faces` as it was, exactly when no face is valid.
pub fn pop_nearest_face(faces: &Vec<Rect>, rest_of_faces: &mut Vec<Rect>, center: &Point) -> (nearest: Option<Rect>)
    ensures
        valid_detections(faces@).len() == 0 ==> nearest is None && final(rest_of_faces)@ == old(rest_of_faces)@,
        valid_detections(faces@).len() > 0 ==> exists|k: int| #[trigger]
            first_nearest_at(valid_detections(faces@), *center, k) && nearest == Some(valid_detections(faces@)[k])
                && final(rest_of_faces)@ == old(rest_of_faces)@ + valid_detections(faces@).remove(k),
{
    let base = rest_of_faces.len();
    // The nearest face so far, its distance, and how many valid faces came
    // before it.
    let mut current: Option<(Rect, AxisDistance, usize)> = None;
    let mut i: usize = 0;
    assert(valid_detections(faces@.take(0)) =~= Seq::<Rect>::empty());
    while i < faces.len()
        invariant
            i <= faces.len(),
            base == old(rest_of_faces)@.len(),
            match current {
                None => valid_detections(faces@.take(i as int)).len() == 0 && rest_of_faces@ == old(
                    rest_of_faces,
                )@,
                Some((rect, diff, k)) => {
                    let v = valid_detections(faces@.take(i as int));
                    &&& first_nearest_at(v, *center, k as int)
                    &&& rect == v[k as int]
                    &&& diff == rect.distance_to(*center)
                    &&& rest_of_faces@ == old(rest_of_faces)@ + v.remove(k as int)
                },
            },
        decreases faces.len() - i,
    {
        let rect = faces[i];
        let ghost v = valid_detections(faces@.take(i as int));
        proof {
            let next = faces@.take(i + 1);
            assert(next.drop_last() == faces@.take(i as int));
            assert(next.last() == rect);
            lemma_valid_detections_step(next);
        }
        if rect.is_valid_detection() {
            let diff = rect.distance(center);
            if diff.is_zero() && faces.len() == 1 {
                proof {
                    assert(faces@.take(1) == faces@);
                    assert(v.push(rect).remove(0) =~= Seq::<Rect>::empty());
                    assert(old(rest_of_faces)@ + Seq::<Rect>::empty() == old(rest_of_faces)@);
                    assert(first_nearest_at(v.push(rect), *center, 0));
                }
                return Some(rect);
            }
            match current {
                None => {
                    current = Some((rect, diff, 0));
                    proof {
                        assert(v.push(rect).remove(0) =~= Seq::<Rect>::empty());
                        assert(old(rest_of_faces)@ + Seq::<Rect>::empty() == old(rest_of_faces)@);
                        assert(first_nearest_at(v.push(rect), *center, 0));
                    }
                },
                Some((nearest_rect, nearest_diff, k)) => {
                    if diff.is_less_than(&nearest_diff) {
                        // The face that was nearest goes back to its place
                        // among the others.
                        let count = rest_of_faces.len() - base;
                        proof {
                            v.remove_ensures(k as int);
                        }
                        rest_of_faces.insert(base + k, nearest_rect);
                        current = Some((rect, diff, count + 1));
                        proof {
                            let w = v.push(rect);
                            assert((old(rest_of_faces)@ + v.remove(k as int)).insert(base + k, nearest_rect)
                                =~= old(rest_of_faces)@ + v);
                            assert(w.remove(v.len() as int) =~= v);
                            assert forall|j: int| 0 <= j < w.len() implies !(#[trigger] w[j]).nearer_than(
                                rect,
                                *center,
                            ) by {
                                if j < v.len() {
                                    assert(!v[j].nearer_than(v[k as int], *center));
                                }
                            }
                            assert forall|j: int| 0 <= j < v.len() implies rect.nearer_than(
                                #[trigger] w[j],
                                *center,
                            ) by {
                                assert(!v[j].nearer_than(v[k as int], *center));
                            }
                            assert(first_nearest_at(w, *center, v.len() as int));
                        }
                    } else {
                        rest_of_faces.push(rect);
                        proof {
                            let w = v.push(rect);
                            assert(w.remove(k as int) =~= v.remove(k as int).push(rect));
                            assert(rest_of_faces@ =~= old(rest_of_faces)@ + w.remove(k as int));
                            assert forall|j: int| 0 <= j < w.len() implies !(#[trigger] w[j]).nearer_than(
                                w[k as int],
                                *center,
                            ) by {
                                if j < v.len() {
                                    assert(!v[j].nearer_than(v[k as int], *center));
                                }
                            }
                            assert forall|j: int| 0 <= j < k implies w[k as int].nearer_than(
                                #[trigger] w[j],
                                *center,
                            ) by {
                                assert(v[k as int].nearer_than(v[j], *center));
                            }
                            assert(first_nearest_at(w, *center, k as int));
                        }
                    }
                },
            }
        }
        i += 1;
    }
    assert(faces@.take(i as int) == faces@);
    match current {
        None => None,
        Some((nearest_rect, _, _)) => Some(nearest_rect),
    }
}

/// Splits `detections` into the face nearest to `frame_center` and the other
/// valid faces in detector order. Returns `None` exactly when no detection
/// is valid.
pub fn select(detections: &Vec<Rect>, frame_center: &Point) -> (res: Option<SelectionResult>)
    ensures
        res is None <==> valid_detections(detections@).len() == 0,
        res matches Some(sel) ==> is_selection(sel@, detections@, *frame_center),
        res matches Some(sel) ==> sel.rest@.len() + 1 == valid_detections(detections@).len()
            && drawn_from_valid(sel@, detections@),
{
    let mut rest: Vec<Rect> = Vec::new();
    match pop_nearest_face(detections, &mut rest, frame_center) {
        None => None,
        Some(nearest) => {
            let sel = SelectionResult { nearest, rest };
            proof {
                let v = valid_detections(detections@);
                let k = choose|k: int| #[trigger]
                    first_nearest_at(v, *frame_center, k) && nearest == v[k] && sel.rest@
                        == Seq::<Rect>::empty() + v.remove(k);
                assert(Seq::<Rect>::empty() + v.remove(k) == v.remove(k));
                assert(sel@ == selection_at(v, k));
                lemma_rest_len(sel@, detections@, *frame_center);
                lemma_only_valid_selected(sel@, detections@, *frame_center);
            }
            Some(sel)
        },
    }
}

/// The valid detections of a non-empty sequence are those of all but its
/// last element, followed by the last one if it is valid.
pub proof fn lemma_valid_detections_step(s: Seq<Rect>)
    requires
        s.len() > 0,
    ensures
        valid_detections(s) == if s.last().valid_detection() {
            valid_detections(s.drop_last()).push(s.last())
        } else {
            valid_detections(s.drop_last())
        },
{
    assert(s == s.drop_last().push(s.last()));
    s.drop_last().lemma_filter_push(s.last(), |r: Rect| r.valid_detection());
}

/// The detections `s` have at most one selection.
pub proof fn lemma_selection_unique(p: Partition, q: Partition, s: Seq<Rect>, center: Point)
    requires
        is_selection(p, s, center),
        is_selection(q, s, center),
    ensures
        p == q,
{
    let v = valid_detections(s);
    let k = choose|k: int| #[trigger] first_nearest_at(v, center, k) && p == selection_at(v, k);
    let l = choose|l: int| #[trigger] first_nearest_at(v, center, l) && q == selection_at(v, l);
    if k < l {
        assert(v[l].nearer_than(v[k], center));
    }
    if l < k {
        assert(v[k].nearer_than(v[l], center));
    }
}

/// A selection holds one nearest face, and `rest` holds every other valid
/// detection: its length is the number of valid detections less one.
pub proof fn lemma_rest_len(p: Partition, s: Seq<Rect>, center: Point)
    requires
        is_selection(p, s, center),
    ensures
        p.rest.len() + 1 == valid_detections(s).len(),
{
    let v = valid_detections(s);
    let k = choose|k: int| #[trigger] first_nearest_at(v, center, k) && p == selection_at(v, k);
    v.remove_ensures(k);
}

/// Whether every rectangle of `p` is a valid detection taken from `s`.
pub open spec fn drawn_from_valid(p: Partition, s: Seq<Rect>) -> bool {
    &&& p.nearest.valid_detection()
    &&& s.contains(p.nearest)
    &&& forall|i: int| 0 <= i < p.rest.len() ==> (#[trigger] p.rest[i]).valid_detection() && s.contains(p.rest[i])
}

/// A rectangle on the top or left edge of the frame (`x <= 0` or `y <= 0`)
/// is neither the nearest face nor among the rest, and whatever is selected
/// was detected.
pub proof fn lemma_only_valid_selected(p: Partition, s: Seq<Rect>, center: Point)
    requires
        is_selection(p, s, center),
    ensures
        drawn_from_valid(p, s),
        forall|r: Rect| r.x <= 0 || r.y <= 0 ==> p.nearest != r && !p.rest.contains(r),
{
    let valid = |r: Rect| r.valid_detection();
    let v = valid_detections(s);
    let k = choose|k: int| #[trigger] first_nearest_at(v, center, k) && p == selection_at(v, k);
    v.remove_ensures(k);
    assert forall|i: int| 0 <= i < v.len() implies (#[trigger] v[i]).valid_detection() && s.contains(v[i]) by {
        s.lemma_filter_pred(valid, i);
        assert(v.contains(v[i]));
        s.lemma_filter_contains_rev(valid, v[i]);
    }
    assert forall|i: int| 0 <= i < p.rest.len() implies (#[trigger] p.rest[i]).valid_detection() && s.contains(
        p.rest[i],
    ) by {
        if i < k {
            assert(p.rest[i] == v[i]);
        } else {
            assert(p.rest[i] == v[i + 1]);
        }
    }
    assert forall|r: Rect| r.x <= 0 || r.y <= 0 implies p.nearest != r && !p.rest.contains(r) by {
        if p.rest.contains(r) {
            let i = choose|i: int| 0 <= i < p.rest.len() && p.rest[i] == r;
            assert(p.rest[i].valid_detection());
        }
    }
}

/// Nearest and rest together are exactly the valid detections, each as often
/// as the detector reported it.
pub proof fn lemma_selection_covers_valid(p: Partition, s: Seq<Rect>, center: Point)
    requires
        is_selection(p, s, center),
    ensures
        p.rest.to_multiset().insert(p.nearest) == valid_detections(s).to_multiset(),
{
    let v = valid_detections(s);
    let k = choose|k: int| #[trigger] first_nearest_at(v, center, k) && p == selection_at(v, k);
    v.remove_ensures(k);
    assert(v.remove(k).insert(k, v[k]) =~= v);
    vstd::seq_lib::to_multiset_insert(v.remove(k), k, v[k]);
}

/// Where no valid detection is strictly nearer to the centre than the first
/// valid one (so in particular where all are equally far), the first valid
/// detection is the nearest and `rest` is the other valid detections in
/// detector order.
pub proof fn lemma_first_stays_nearest(p: Partition, s: Seq<Rect>, center: Point)
    requires
        is_selection(p, s, center),
        forall|i: int|
            0 <= i < valid_detections(s).len() ==> !(#[trigger] valid_detections(s)[i]).nearer_than(
                valid_detections(s)[0],
                center,
            ),
    ensures
        p.nearest == valid_detections(s)[0],
        p.rest == valid_detections(s).skip(1),
{
    let v = valid_detections(s);
    let k = choose|k: int| #[trigger] first_nearest_at(v, center, k) && p == selection_at(v, k);
    if k > 0 {
        assert(v[k].nearer_than(v[0], center));
    }
    assert(v.remove(0) =~= v.skip(1));
}

/// The rest keeps detector order: of two faces in `rest`, the one that
/// comes first was also detected first among the valid detections.
pub proof fn lemma_rest_keeps_detector_order(p: Partition, s: Seq<Rect>, center: Point)
    requires
        is_selection(p, s, center),
    ensures
        exists|k: int|
            0 <= k < valid_detections(s).len() && p.nearest == valid_detections(s)[k] && (forall|i: int|
                0 <= i < p.rest.len() ==> #[trigger] p.rest[i] == valid_detections(s)[if i < k {
                    i
                } else {
                    i + 1
                }]),
{
    let v = valid_detections(s);
    let k = choose|k: int| #[trigger] first_nearest_at(v, center, k) && p == selection_at(v, k);
    v.remove_ensures(k);
    assert(0 <= k < v.len() && p.nearest == v[k] && (forall|i: int|
        0 <= i < p.rest.len() ==> #[trigger] p.rest[i] == v[if i < k {
            i
        } else {
            i + 1
        }]));
}

} // verus!
