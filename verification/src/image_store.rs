//! The images of a screen, kept within a budget of bytes.
use crate::graphics::{AnimControl, Frame, Image, ImageView};
use std::sync::Arc;
use vstd::prelude::*;

verus! {

/// The images, the oldest first, and the bytes that they take.
#[derive(Debug)]
pub struct ImageStore {
    images: Vec<Image>,
    bytes: usize,
}

/// The contents of a store.
#[verifier::ext_equal]
pub ghost struct StoreView {
    /// The images, the oldest first.
    pub images: Seq<ImageView>,
    /// The bytes that were counted.
    pub bytes: nat,
}

/// The bytes that a list of images takes.
pub open spec fn sizes(images: Seq<ImageView>) -> nat
    decreases images.len(),
{
    if images.len() == 0 {
        0
    } else {
        images[0].size() + sizes(images.skip(1))
    }
}

/// The position of the image with number `id`, or the length of the list if there
/// is none.
pub open spec fn position(images: Seq<ImageView>, id: u32) -> int
    decreases images.len(),
{
    if images.len() == 0 || images[0].id == id {
        0
    } else {
        1 + position(images.skip(1), id)
    }
}

/// The list without the image with number `id`.
pub open spec fn without(images: Seq<ImageView>, id: u32) -> Seq<ImageView> {
    if position(images, id) < images.len() {
        images.remove(position(images, id))
    } else {
        images
    }
}

/// The number of the oldest images that must go to meet the budget. One image
/// always stays.
pub open spec fn surplus(images: Seq<ImageView>) -> int
    decreases images.len(),
{
    if sizes(images) > ImageStore::CAP_BYTES && images.len() > 1 {
        1 + surplus(images.skip(1))
    } else {
        0
    }
}

/// The numbers of a list of images.
pub open spec fn ids(images: Seq<ImageView>) -> Seq<u32> {
    images.map_values(|i: ImageView| i.id)
}

/// Whether no two images have the same number.
pub open spec fn distinct(images: Seq<ImageView>) -> bool {
    forall|i: int, j: int|
        0 <= i < j < images.len() ==> (#[trigger] images[i]).id != (#[trigger] images[j]).id
}

/// The image with one more frame. The frame gets the next number, and the oldest
/// frame goes where there are too many.
pub open spec fn with_frame(
    img: ImageView,
    frame: crate::graphics::FrameView,
) -> ImageView {
    let seq: u64 = if img.frames.len() == 0 {
        1
    } else {
        (img.frames.last().seq + 1) as u64
    };
    let grown = img.frames.push(crate::graphics::FrameView { seq, ..frame });
    ImageView {
        frames: if grown.len() > ImageStore::CAP_FRAMES_PER_IMAGE {
            grown.skip(1)
        } else {
            grown
        },
        ..img
    }
}

impl StoreView {
    /// No two images have the same number, and the bytes are counted.
    pub open spec fn wf(self) -> bool {
        distinct(self.images) && self.bytes == sizes(self.images) && self.bytes <= usize::MAX
    }

    /// The budget is met, unless a single image is over it.
    pub open spec fn within_budget(self) -> bool {
        self.bytes <= ImageStore::CAP_BYTES || self.images.len() == 1
    }

    /// No image has more frames than allowed.
    pub open spec fn frames_capped(self) -> bool {
        forall|i: int|
            0 <= i < self.images.len() ==> (#[trigger] self.images[i]).frames.len()
                <= ImageStore::CAP_FRAMES_PER_IMAGE
    }

    /// No frame has a number above `n`.
    pub open spec fn numbered_up_to(self, n: int) -> bool {
        forall|i: int|
            0 <= i < self.images.len() && (#[trigger] self.images[i]).frames.len() > 0
                ==> self.images[i].frames.last().seq <= n
    }

    /// Whether there is an image with this number.
    pub open spec fn contains(self, id: u32) -> bool {
        position(self.images, id) < self.images.len()
    }

    /// The store with these images, as far as the budget allows.
    pub open spec fn trimmed(images: Seq<ImageView>) -> StoreView {
        let kept = images.skip(surplus(images));
        StoreView { images: kept, bytes: sizes(kept) }
    }

    /// The images after `img` came in as the newest, in place of one with the same
    /// number.
    pub open spec fn grown(self, img: ImageView) -> Seq<ImageView> {
        without(self.images, img.id).push(img)
    }

    /// Whether a number is left for one more frame of an image.
    pub open spec fn has_number_for(self, id: u32) -> bool {
        let frames = self.images[position(self.images, id)].frames;
        frames.len() > 0 ==> frames.last().seq < u64::MAX
    }

    /// The store with another animation state for an image.
    pub open spec fn controlled(
        self,
        id: u32,
        control: AnimControl,
    ) -> StoreView {
        let p = position(self.images, id);
        StoreView {
            images: self.images.update(
                p,
                ImageView { anim_control: Some(control), ..self.images[p] },
            ),
            ..self
        }
    }

    /// The images after a frame came in for one of them.
    pub open spec fn animated(
        self,
        id: u32,
        frame: crate::graphics::FrameView,
    ) -> Seq<ImageView> {
        let p = position(self.images, id);
        self.images.update(p, with_frame(self.images[p], frame))
    }
}

/// A call that changes a store.
pub ghost enum StoreCall {
    Insert(ImageView),
    PushFrame(u32, crate::graphics::FrameView),
}

impl StoreView {
    /// A store without images.
    pub open spec fn empty() -> StoreView {
        StoreView { images: Seq::empty(), bytes: 0 }
    }

    /// The store after a call.
    pub open spec fn called(self, call: StoreCall) -> StoreView {
        match call {
            StoreCall::Insert(img) => StoreView::trimmed(self.grown(img)),
            StoreCall::PushFrame(id, frame) => if self.contains(id) {
                StoreView::trimmed(self.animated(id, frame))
            } else {
                self
            },
        }
    }

    /// The store after a list of calls.
    pub open spec fn called_all(self, calls: Seq<StoreCall>) -> StoreView
        decreases calls.len(),
    {
        if calls.len() == 0 {
            self
        } else {
            self.called_all(calls.drop_last()).called(calls.last())
        }
    }
}

pub proof fn position_bounds(images: Seq<ImageView>, id: u32)
    ensures
        0 <= position(images, id) <= images.len(),
        position(images, id) < images.len() ==> images[position(images, id)].id == id,
        forall|k: int| 0 <= k < position(images, id) ==> (#[trigger] images[k]).id != id,
    decreases images.len(),
{
    if images.len() > 0 && images[0].id != id {
        position_bounds(images.skip(1), id);
        assert forall|k: int| 0 <= k < position(images, id) implies (#[trigger] images[k]).id
            != id by {
            if k > 0 {
                assert(images.skip(1)[k - 1] == images[k]);
            }
        }
    }
}

proof fn position_is(images: Seq<ImageView>, id: u32, i: int)
    requires
        0 <= i <= images.len(),
        i < images.len() ==> images[i].id == id,
        forall|k: int| 0 <= k < i ==> (#[trigger] images[k]).id != id,
    ensures
        position(images, id) == i,
{
    position_bounds(images, id);
    let j = position(images, id);
    if j < i {
        assert(images[j].id != id);
    } else if i < j {
        assert(images[i].id != id);
    }
}

proof fn sizes_push(images: Seq<ImageView>, img: ImageView)
    ensures
        sizes(images.push(img)) == sizes(images) + img.size(),
    decreases images.len(),
{
    if images.len() == 0 {
        assert(sizes(images.push(img).skip(1)) == 0);
    } else {
        sizes_push(images.skip(1), img);
        assert(images.push(img).skip(1) =~= images.skip(1).push(img));
    }
}

proof fn sizes_remove(images: Seq<ImageView>, i: int)
    requires
        0 <= i < images.len(),
    ensures
        sizes(images) == sizes(images.remove(i)) + images[i].size(),
    decreases images.len(),
{
    if i == 0 {
        assert(images.remove(0) =~= images.skip(1));
    } else {
        sizes_remove(images.skip(1), i - 1);
        assert(images.remove(i).skip(1) =~= images.skip(1).remove(i - 1));
    }
}

proof fn sizes_update(images: Seq<ImageView>, i: int, img: ImageView)
    requires
        0 <= i < images.len(),
    ensures
        sizes(images.update(i, img)) == sizes(images) - images[i].size() + img.size(),
    decreases images.len(),
{
    if i == 0 {
        assert(images.update(0, img).skip(1) =~= images.skip(1));
    } else {
        sizes_update(images.skip(1), i - 1, img);
        assert(images.update(i, img).skip(1) =~= images.skip(1).update(i - 1, img));
    }
}

proof fn size_of_one(images: Seq<ImageView>, i: int)
    requires
        0 <= i < images.len(),
    ensures
        images[i].size() <= sizes(images),
{
    sizes_remove(images, i);
}

proof fn surplus_bounds(images: Seq<ImageView>)
    ensures
        0 <= surplus(images) <= images.len(),
        images.len() > 0 ==> surplus(images) < images.len(),
        sizes(images.skip(surplus(images))) <= ImageStore::CAP_BYTES || images.len() - surplus(
            images,
        ) <= 1,
        sizes(images.skip(surplus(images))) <= sizes(images),
    decreases images.len(),
{
    if sizes(images) > ImageStore::CAP_BYTES && images.len() > 1 {
        surplus_bounds(images.skip(1));
        assert(images.skip(1).skip(surplus(images.skip(1))) =~= images.skip(surplus(images)));
    } else {
        assert(images.skip(0) =~= images);
    }
}

/// What is too much is never all of it.
pub proof fn surplus_is_less(images: Seq<ImageView>)
    ensures
        0 <= surplus(images) <= images.len(),
        images.len() > 0 ==> surplus(images) < images.len(),
{
    surplus_bounds(images);
}

proof fn with_frame_size(img: ImageView, frame: crate::graphics::FrameView)
    ensures
        with_frame(img, frame).size() == img.size() + frame.data_b64.len() - (if img.frames.len()
            >= ImageStore::CAP_FRAMES_PER_IMAGE {
            img.frames[0].data_b64.len()
        } else {
            0
        }),
{
    let seq: u64 = if img.frames.len() == 0 {
        1
    } else {
        (img.frames.last().seq + 1) as u64
    };
    let grown = img.frames.push(crate::graphics::FrameView { seq, ..frame });
    assert(grown.drop_last() =~= img.frames);
    crate::graphics::frame_bytes_skip_first(grown);
}

proof fn trimming_keeps_bounds(images: Seq<ImageView>)
    requires
        distinct(images),
    ensures
        distinct(StoreView::trimmed(images).images),
        StoreView::trimmed(images).bytes == sizes(StoreView::trimmed(images).images),
        images.len() > 0 ==> StoreView::trimmed(images).within_budget(),
        forall|i: int|
            0 <= i < StoreView::trimmed(images).images.len() ==> #[trigger] StoreView::trimmed(
                images,
            ).images[i] == images[surplus(images) + i],
{
    surplus_bounds(images);
    let kept = images.skip(surplus(images));
    assert forall|i: int, j: int| 0 <= i < j < kept.len() implies (#[trigger] kept[i]).id != (
    #[trigger] kept[j]).id by {
        assert(kept[i] == images[surplus(images) + i]);
        assert(kept[j] == images[surplus(images) + j]);
    }
}

proof fn replacing_keeps_apart(s: StoreView, img: ImageView)
    requires
        distinct(s.images),
    ensures
        distinct(s.grown(img)),
        forall|k: int|
            0 <= k < s.grown(img).len() - 1 ==> s.images.contains(#[trigger] s.grown(img)[k]),
{
    let all = s.grown(img);
    let p = position(s.images, img.id);
    position_bounds(s.images, img.id);
    let shift = |k: int|
        if p < s.images.len() && k >= p {
            k + 1
        } else {
            k
        };
    assert forall|k: int| 0 <= k < all.len() - 1 implies s.images.contains(
        #[trigger] all[k],
    ) by {
        assert(all[k] == s.images[shift(k)]);
    }
    assert forall|i: int, j: int| 0 <= i < j < all.len() implies (#[trigger] all[i]).id != (
    #[trigger] all[j]).id by {
        assert(all[i] == s.images[shift(i)]);
        if j < all.len() - 1 {
            assert(all[j] == s.images[shift(j)]);
        }
    }
}

/// What a store promises after an image came in: the budget is met or only one
/// image is left, the new image is there, numbers stay distinct, and only the oldest
/// images go.
pub proof fn insertion_meets_the_budget(s: StoreView, img: ImageView)
    requires
        s.wf(),
        s.bytes + img.size() <= usize::MAX,
    ensures
        distinct(s.grown(img)),
        StoreView::trimmed(s.grown(img)).wf(),
        StoreView::trimmed(s.grown(img)).bytes <= ImageStore::CAP_BYTES || StoreView::trimmed(
            s.grown(img),
        ).images.len() == 1,
        StoreView::trimmed(s.grown(img)).images.last() == img,
        StoreView::trimmed(s.grown(img)).contains(img.id),
        forall|k: int|
            0 <= k < surplus(s.grown(img)) ==> !StoreView::trimmed(s.grown(img)).contains(
                #[trigger] s.grown(img)[k].id,
            ),
        s.bytes - (if s.contains(img.id) {
            s.images[position(s.images, img.id)].size()
        } else {
            0
        }) + img.size() <= ImageStore::CAP_BYTES ==> surplus(s.grown(img)) == 0,
{
    let all = s.grown(img);
    let n = surplus(all);
    let kept = all.skip(n);
    surplus_bounds(all);
    position_bounds(s.images, img.id);
    let p = position(s.images, img.id);
    if p < s.images.len() {
        sizes_remove(s.images, p);
    }
    sizes_push(without(s.images, img.id), img);
    replacing_keeps_apart(s, img);
    trimming_keeps_bounds(all);
    position_bounds(kept, img.id);
    if position(kept, img.id) == kept.len() {
        assert(kept[kept.len() - 1].id != img.id);
    }
    assert forall|k: int| 0 <= k < n implies !StoreView::trimmed(all).contains(
        #[trigger] all[k].id,
    ) by {
        position_bounds(kept, all[k].id);
        let q = position(kept, all[k].id);
        if q < kept.len() {
            assert(kept[q] == all[n + q]);
        }
    }
}

/// A call keeps the images apart, the bytes counted, the budget met and the frames
/// within their cap.
proof fn calls_keep_bounds(s: StoreView, call: StoreCall)
    requires
        distinct(s.images),
        s.bytes == sizes(s.images),
    ensures
        distinct(s.called(call).images),
        s.called(call).bytes == sizes(s.called(call).images),
        call is Insert || s.within_budget() ==> s.called(call).within_budget(),
        s.frames_capped() && (call matches StoreCall::Insert(img) ==> img.frames.len()
            <= ImageStore::CAP_FRAMES_PER_IMAGE) ==> s.called(call).frames_capped(),
{
    let t = s.called(call);
    match call {
        StoreCall::Insert(img) => {
            let all = s.grown(img);
            replacing_keeps_apart(s, img);
            trimming_keeps_bounds(all);
            if s.frames_capped() && img.frames.len() <= ImageStore::CAP_FRAMES_PER_IMAGE {
                assert forall|i: int| 0 <= i < t.images.len() implies (
                #[trigger] t.images[i]).frames.len() <= ImageStore::CAP_FRAMES_PER_IMAGE by {
                    let k = surplus(all) + i;
                    surplus_bounds(all);
                    assert(t.images[i] == all[k]);
                    if k < all.len() - 1 {
                        assert(s.images.contains(all[k]));
                    }
                }
            }
        },
        StoreCall::PushFrame(id, frame) => {
            if s.contains(id) {
                let all = s.animated(id, frame);
                position_bounds(s.images, id);
                assert forall|i: int, j: int| 0 <= i < j < all.len() implies (
                #[trigger] all[i]).id != (#[trigger] all[j]).id by {
                    assert(all[i].id == s.images[i].id);
                    assert(all[j].id == s.images[j].id);
                }
                trimming_keeps_bounds(all);
                surplus_bounds(all);
                if s.frames_capped() {
                    assert forall|i: int| 0 <= i < t.images.len() implies (
                    #[trigger] t.images[i]).frames.len() <= ImageStore::CAP_FRAMES_PER_IMAGE by {
                        let k = surplus(all) + i;
                        assert(t.images[i] == all[k]);
                        assert(s.images[k].frames.len() <= ImageStore::CAP_FRAMES_PER_IMAGE);
                    }
                }
            }
        },
    }
}

/// A call gives out one number at most.
proof fn calls_number_upwards(s: StoreView, call: StoreCall, n: int)
    requires
        distinct(s.images),
        s.numbered_up_to(n),
        0 <= n < u64::MAX,
        call matches StoreCall::Insert(img) ==> img.frames.len() == 0,
    ensures
        s.called(call).numbered_up_to(n + 1),
{
    let t = s.called(call);
    match call {
        StoreCall::Insert(img) => {
            let all = s.grown(img);
            replacing_keeps_apart(s, img);
            trimming_keeps_bounds(all);
            surplus_bounds(all);
            assert forall|i: int| 0 <= i < t.images.len() && (
            #[trigger] t.images[i]).frames.len() > 0 implies t.images[i].frames.last().seq <= n
                + 1 by {
                let k = surplus(all) + i;
                assert(t.images[i] == all[k]);
                if k < all.len() - 1 {
                    assert(s.images.contains(all[k]));
                }
            }
        },
        StoreCall::PushFrame(id, frame) => {
            if s.contains(id) {
                let all = s.animated(id, frame);
                position_bounds(s.images, id);
                surplus_bounds(all);
                assert forall|i: int| 0 <= i < t.images.len() && (
                #[trigger] t.images[i]).frames.len() > 0 implies t.images[i].frames.last().seq
                    <= n + 1 by {
                    let k = surplus(all) + i;
                    assert(t.images[i] == all[k]);
                    assert(s.images[k].frames.len() > 0 ==> s.images[k].frames.last().seq <= n);
                }
            }
        },
    }
}

/// Whatever images and frames come in, a store does not grow without bound: from an
/// empty store on, its images fit the budget or there is a single one, the bytes are
/// counted, each image is found under its own number, and none has more frames than
/// allowed. A frame has no number above that of the calls, so numbers last as long as
/// calls can be counted. Images come in without frames.
pub proof fn stores_stay_within_bounds(calls: Seq<StoreCall>)
    requires
        forall|k: int|
            0 <= k < calls.len() ==> ((#[trigger] calls[k]) matches StoreCall::Insert(img)
                ==> img.frames.len() == 0),
    ensures
        sizes(StoreView::empty().called_all(calls).images) <= ImageStore::CAP_BYTES
            || StoreView::empty().called_all(calls).images.len() == 1,
        StoreView::empty().called_all(calls).bytes == sizes(
            StoreView::empty().called_all(calls).images,
        ),
        distinct(StoreView::empty().called_all(calls).images),
        forall|i: int|
            0 <= i < StoreView::empty().called_all(calls).images.len() ==> position(
                StoreView::empty().called_all(calls).images,
                (#[trigger] StoreView::empty().called_all(calls).images[i]).id,
            ) == i,
        StoreView::empty().called_all(calls).frames_capped(),
        calls.len() <= u64::MAX ==> StoreView::empty().called_all(calls).numbered_up_to(
            calls.len() as int,
        ),
    decreases calls.len(),
{
    let s = StoreView::empty().called_all(calls);
    if calls.len() > 0 {
        let front = calls.drop_last();
        assert forall|k: int| 0 <= k < front.len() implies ((#[trigger] front[k]) matches
            StoreCall::Insert(img) ==> img.frames.len() == 0) by {
            assert(front[k] == calls[k]);
        }
        stores_stay_within_bounds(front);
        let last = calls[calls.len() - 1];
        assert(calls.last() == last);
        calls_keep_bounds(StoreView::empty().called_all(front), last);
        if calls.len() <= u64::MAX {
            calls_number_upwards(StoreView::empty().called_all(front), last, front.len() as int);
        }
    }
    assert forall|i: int| 0 <= i < s.images.len() implies position(
        s.images,
        (#[trigger] s.images[i]).id,
    ) == i by {
        position_is(s.images, s.images[i].id, i);
    }
}

proof fn controlling_keeps_wf(s: StoreView, id: u32, control: AnimControl)
    requires
        s.wf(),
        s.contains(id),
    ensures
        s.controlled(id, control).wf(),
{
    let p = position(s.images, id);
    position_bounds(s.images, id);
    let img = ImageView { anim_control: Some(control), ..s.images[p] };
    sizes_update(s.images, p, img);
    let all = s.controlled(id, control).images;
    assert forall|i: int, j: int| 0 <= i < j < all.len() implies (#[trigger] all[i]).id != (
    #[trigger] all[j]).id by {
        assert(all[i].id == s.images[i].id);
        assert(all[j].id == s.images[j].id);
    }
}

/// What a store promises after a frame came in: the image keeps at most as many
/// frames as allowed, the new frame is the last, and its number is above all
/// others.
pub proof fn frames_are_numbered_upwards(img: ImageView, frame: crate::graphics::FrameView)
    requires
        img.frames.len() <= ImageStore::CAP_FRAMES_PER_IMAGE,
        img.frames.len() > 0 ==> img.frames.last().seq < u64::MAX,
        forall|i: int, j: int|
            0 <= i < j < img.frames.len() ==> (#[trigger] img.frames[i]).seq < (
            #[trigger] img.frames[j]).seq,
    ensures
        with_frame(img, frame).frames.len() <= ImageStore::CAP_FRAMES_PER_IMAGE,
        with_frame(img, frame).frames.last().data_b64 == frame.data_b64,
        img.frames.len() == 0 ==> with_frame(img, frame).frames.last().seq == 1,
        forall|i: int, j: int|
            0 <= i < j < with_frame(img, frame).frames.len() ==> (#[trigger] with_frame(
                img,
                frame,
            ).frames[i]).seq < (#[trigger] with_frame(img, frame).frames[j]).seq,
        forall|i: int|
            0 <= i < with_frame(img, frame).frames.len() - 1 ==> img.frames.contains(
                #[trigger] with_frame(img, frame).frames[i],
            ),
{
    let after = with_frame(img, frame).frames;
    let shift: int = if img.frames.len() == ImageStore::CAP_FRAMES_PER_IMAGE {
        1
    } else {
        0
    };
    assert forall|i: int| 0 <= i < after.len() - 1 implies img.frames.contains(
        #[trigger] after[i],
    ) by {
        assert(after[i] == img.frames[i + shift]);
    }
    assert forall|i: int, j: int| 0 <= i < j < after.len() implies (#[trigger] after[i]).seq < (
    #[trigger] after[j]).seq by {
        assert(after[i] == img.frames[i + shift]);
        if j < after.len() - 1 {
            assert(after[j] == img.frames[j + shift]);
        } else {
            assert(img.frames[i + shift].seq <= img.frames.last().seq);
        }
    }
}

impl ImageStore {
    /// The budget in bytes.
    pub const CAP_BYTES: usize = 67_108_864;

    /// The number of frames that one image may have.
    pub const CAP_FRAMES_PER_IMAGE: usize = 512;

    fn find(&self, id: u32) -> (i: usize)
        ensures
            i == position(self@.images, id),
            i <= self.images.len(),
    {
        let mut i: usize = 0;
        while i < self.images.len() && self.images[i].id != id
            invariant
                i <= self.images.len(),
                forall|k: int| 0 <= k < i ==> (#[trigger] self@.images[k]).id != id,
            decreases self.images.len() - i,
        {
            assert(self@.images[i as int].id == self.images@[i as int].id);
            i += 1;
        }
        proof {
            if i < self.images.len() {
                assert(self@.images[i as int].id == self.images@[i as int].id);
            }
            position_is(self@.images, id, i as int);
        }
        i
    }

    /// Adds an image as the newest, in place of one with the same number, and
    /// removes the oldest images over the budget. Returns their numbers, so that the
    /// caller can drop what refers to them.
    pub fn insert(&mut self, img: Image) -> (evicted: Vec<u32>)
        requires
            old(self)@.wf(),
            old(self)@.bytes + img@.size() <= usize::MAX,
        ensures
            final(self)@ == StoreView::trimmed(old(self)@.grown(img@)),
            final(self)@ == old(self)@.called(StoreCall::Insert(img@)),
            evicted@ == ids(old(self)@.grown(img@)).take(surplus(old(self)@.grown(img@))),
            final(self)@.wf(),
            final(self)@.within_budget(),
            old(self)@.frames_capped() && img@.frames.len() <= ImageStore::CAP_FRAMES_PER_IMAGE
                ==> final(self)@.frames_capped(),
    {
        let ghost before = self@;
        proof {
            insertion_meets_the_budget(before, img@);
            calls_keep_bounds(before, StoreCall::Insert(img@));
        }
        let p: usize = self.find(img.id);
        if p < self.images.len() {
            proof {
                sizes_remove(before.images, p as int);
                size_of_one(before.images, p as int);
                assert(self.images@[p as int]@ == before.images[p as int]);
            }
            let replaced: Image = self.images.remove(p);
            self.bytes = self.bytes - replaced.total_bytes();
            assert(self@.images =~= before.images.remove(p as int));
        }
        proof {
            sizes_push(self@.images, img@);
        }
        self.bytes = self.bytes + img.total_bytes();
        let ghost kept = self@.images;
        self.images.push(img);
        assert(self@.images =~= kept.push(img@));
        self.evict_over_budget()
    }

    /// Adds an animation frame to an image, and removes its oldest frame and then
    /// the oldest images where there is too much. Returns the numbers of the removed
    /// images. A frame for an unknown image is dropped.
    pub fn push_frame(&mut self, id: u32, frame: Frame) -> (evicted: Vec<u32>)
        requires
            old(self)@.wf(),
            old(self)@.bytes + frame@.data_b64.len() <= usize::MAX,
            old(self)@.contains(id) ==> old(self)@.has_number_for(id),
        ensures
            old(self)@.contains(id) ==> final(self)@ == StoreView::trimmed(
                old(self)@.animated(id, frame@),
            ),
            old(self)@.contains(id) ==> evicted@ == ids(old(self)@.animated(id, frame@)).take(
                surplus(old(self)@.animated(id, frame@)),
            ),
            !old(self)@.contains(id) ==> final(self)@ == old(self)@ && evicted@.len() == 0,
            final(self)@ == old(self)@.called(StoreCall::PushFrame(id, frame@)),
            final(self)@.wf(),
            old(self)@.within_budget() ==> final(self)@.within_budget(),
            old(self)@.frames_capped() ==> final(self)@.frames_capped(),
    {
        let ghost before = self@;
        proof {
            calls_keep_bounds(before, StoreCall::PushFrame(id, frame@));
        }
        let p: usize = self.find(id);
        if p >= self.images.len() {
            return Vec::new();
        }
        let ghost img = before.images[p as int];
        proof {
            assert(self.images@[p as int]@ == img);
            size_of_one(before.images, p as int);
            with_frame_size(img, frame@);
            sizes_update(before.images, p as int, with_frame(img, frame@));
            if img.frames.len() > 0 {
                crate::graphics::frame_bytes_skip_first(img.frames);
            }
        }
        let mut list: Vec<Frame> = Vec::new();
        let count: usize = self.images[p].frames.len();
        let from: usize = if count >= ImageStore::CAP_FRAMES_PER_IMAGE {
            1
        } else {
            0
        };
        let mut i: usize = from;
        while i < count
            invariant
                from <= i <= count,
                p < self.images.len(),
                self@ == before,
                img == self.images@[p as int]@,
                count == img.frames.len(),
                list@.len() == i - from,
                forall|k: int| 0 <= k < i - from ==> (#[trigger] list@[k])@ == img.frames[from + k],
            decreases count - i,
        {
            assert(self.images@[p as int].frames@[i as int]@ == img.frames[i as int]);
            list.push(self.images[p].frames[i].clone());
            i += 1;
        }
        let seq: u64 = if count == 0 {
            1
        } else {
            assert(self.images@[p as int].frames@[count - 1]@ == img.frames.last());
            self.images[p].frames[count - 1].seq + 1
        };
        let added: usize = frame.data_b64.len();
        let dropped: usize = if from == 1 {
            assert(self.images@[p as int].frames@[0]@ == img.frames[0]);
            self.images[p].frames[0].data_b64.len()
        } else {
            0
        };
        list.push(Frame { seq, ..frame });
        self.bytes = self.bytes + added - dropped;
        self.images[p].frames = Arc::new(list);
        proof {
            let now = self.images@[p as int]@;
            assert(now.frames =~= with_frame(img, frame@).frames);
            assert(self@.images =~= before.animated(id, frame@));
            let all = self@.images;
            assert forall|i: int, j: int| 0 <= i < j < all.len() implies (#[trigger] all[i]).id
                != (#[trigger] all[j]).id by {
                assert(all[i].id == before.images[i].id);
                assert(all[j].id == before.images[j].id);
            }
        }
        self.evict_over_budget()
    }

    fn evict_over_budget(&mut self) -> (evicted: Vec<u32>)
        requires
            old(self)@.wf(),
        ensures
            final(self)@ == StoreView::trimmed(old(self)@.images),
            evicted@ == ids(old(self)@.images).take(surplus(old(self)@.images)),
            final(self)@.wf(),
    {
        let mut evicted: Vec<u32> = Vec::new();
        let ghost all = self@.images;
        assert(all.skip(0) =~= all);
        proof {
            surplus_bounds(all);
        }
        while self.bytes > ImageStore::CAP_BYTES && self.images.len() > 1
            invariant
                self@.wf(),
                all == old(self)@.images,
                evicted@.len() <= surplus(all),
                evicted@.len() + surplus(self@.images) == surplus(all) <= all.len(),
                evicted@ =~= ids(all).take(evicted@.len() as int),
                self@.images =~= all.skip(evicted@.len() as int),
            decreases self.images.len(),
        {
            let ghost now = self@.images;
            proof {
                sizes_remove(now, 0);
                size_of_one(now, 0);
                assert(self.images@[0]@ == now[0]);
                surplus_bounds(now);
            }
            let victim: Image = self.images.remove(0);
            self.bytes = self.bytes - victim.total_bytes();
            evicted.push(victim.id);
            proof {
                assert(self@.images =~= now.remove(0));
                assert(now.remove(0) =~= now.skip(1));
                assert(now[0] == all[evicted@.len() - 1]);
                surplus_bounds(all);
                surplus_bounds(self@.images);
                assert forall|i: int, j: int| 0 <= i < j < self@.images.len() implies (
                #[trigger] self@.images[i]).id != (#[trigger] self@.images[j]).id by {
                    assert(self@.images[i] == now[i + 1]);
                    assert(self@.images[j] == now[j + 1]);
                }
            }
        }
        evicted
    }

    /// True if the bytes of one more image or frame can still be counted.
    pub fn has_room_for(&self, len: usize) -> (r: bool)
        ensures
            r == (self@.bytes + len <= usize::MAX),
    {
        self.bytes <= usize::MAX - len
    }

    /// True if a frame for the image with number `id` can be taken in: there is such an
    /// image, a number is left for the frame, and its bytes can be counted.
    pub fn takes_frame(&self, id: u32, len: usize) -> (r: bool)
        ensures
            r == (self@.contains(id) && self@.has_number_for(id) && self@.bytes + len
                <= usize::MAX),
    {
        match self.get(id) {
            Some(img) => {
                let n: usize = img.frames.len();
                let numbered: bool = if n == 0 {
                    true
                } else {
                    assert(img@.frames.last() == img.frames@[n - 1]@);
                    img.frames[n - 1].seq < u64::MAX
                };
                numbered && self.has_room_for(len)
            },
            None => false,
        }
    }

    /// Sets the animation state of the image with number `id`, if there is one.
    pub fn control(&mut self, id: u32, control: AnimControl)
        requires
            old(self)@.wf(),
        ensures
            final(self)@ == (if old(self)@.contains(id) {
                old(self)@.controlled(id, control)
            } else {
                old(self)@
            }),
            final(self)@.wf(),
    {
        let ghost before = self@;
        match self.get_mut(id) {
            Some(img) => {
                img.anim_control = Some(control);
            },
            None => {},
        }
        proof {
            if before.contains(id) {
                controlling_keeps_wf(before, id, control);
            }
        }
    }

    /// The image with number `id`.
    pub fn get(&self, id: u32) -> (r: Option<&Image>)
        ensures
            match r {
                Some(img) => self@.contains(id) && img@ == self@.images[position(self@.images, id)],
                None => !self@.contains(id),
            },
    {
        let p: usize = self.find(id);
        if p < self.images.len() {
            Some(&self.images[p])
        } else {
            None
        }
    }

    /// The image with number `id`, to be changed in place. The bytes are not counted
    /// again, so this is for the state of an animation and not for its data.
    pub fn get_mut(&mut self, id: u32) -> (r: Option<&mut Image>)
        ensures
            match r {
                Some(img) => old(self)@.contains(id) && img@ == old(self)@.images[position(
                    old(self)@.images,
                    id,
                )] && final(self)@ == (StoreView {
                    images: old(self)@.images.update(
                        position(old(self)@.images, id),
                        final(img)@,
                    ),
                    ..old(self)@
                }),
                None => !old(self)@.contains(id) && final(self)@ == old(self)@,
            },
    {
        let p: usize = self.find(id);
        if p < self.images.len() {
            let img = &mut self.images[p];
            Some(img)
        } else {
            None
        }
    }

    /// True if there is an image with number `id`.
    pub fn contains(&self, id: u32) -> (r: bool)
        ensures
            r == self@.contains(id),
    {
        self.find(id) < self.images.len()
    }

    /// The number of images.
    pub fn len(&self) -> (n: usize)
        ensures
            n == self@.images.len(),
    {
        self.images.len()
    }

    /// True if there is no image.
    pub fn is_empty(&self) -> (r: bool)
        ensures
            r == (self@.images.len() == 0),
    {
        self.images.len() == 0
    }
}

impl View for ImageStore {
    type V = StoreView;

    closed spec fn view(&self) -> StoreView {
        StoreView {
            images: crate::graphics::images_view(self.images@),
            bytes: self.bytes as nat,
        }
    }
}

impl Default for ImageStore {
    fn default() -> (s: ImageStore)
        ensures
            s@ == StoreView::empty(),
            s@.wf(),
    {
        let s = ImageStore { images: Vec::new(), bytes: 0 };
        assert(s@.images =~= Seq::empty());
        s
    }
}

} // verus!
