use crate::util::errors::ProtocolError;
use crate::util::table::Table;
use vstd::prelude::*;
use vstd::string::*;
use vstd::utf8::*;

verus! {

/// A reply tree: the value that a handler's result is turned into before it
/// is encoded for the wire.
#[derive(Debug, PartialEq, Eq)]
pub enum Frame {
    /// A string of bytes.
    BlobString(Vec<u8>),
    /// A failure, with its message.
    SimpleError(String),
    /// No value.
    Null,
    /// A signed 64-bit integer.
    Number(i64),
    /// An ordered sequence of replies.
    Array(Vec<Frame>),
    /// A mapping, as its entries: each a key and its value.
    Mapping(Vec<(Frame, Frame)>),
}

/// The mathematical model of a reply tree.
pub enum FrameView {
    BlobString(Seq<u8>),
    SimpleError(Seq<char>),
    Null,
    Number(int),
    Array(Seq<FrameView>),
    Mapping(Seq<(FrameView, FrameView)>),
}

/// The model of a reply tree: each leaf by what it holds, each composite
/// by the models of its parts, in order.
pub open spec fn model(frame: &Frame) -> FrameView
    decreases frame,
{
    match frame {
        Frame::BlobString(data) => FrameView::BlobString(data@),
        Frame::SimpleError(text) => FrameView::SimpleError(text@),
        Frame::Null => FrameView::Null,
        Frame::Number(number) => FrameView::Number(*number as int),
        Frame::Array(items) => FrameView::Array(
            Seq::new(
                items.len() as nat,
                |i: int|
                    if 0 <= i < items.len() {
                        model(&items[i])
                    } else {
                        FrameView::Null
                    },
            ),
        ),
        Frame::Mapping(entries) => FrameView::Mapping(
            Seq::new(
                entries.len() as nat,
                |i: int|
                    if 0 <= i < entries.len() {
                        (model(&entries[i].0), model(&entries[i].1))
                    } else {
                        (FrameView::Null, FrameView::Null)
                    },
            ),
        ),
    }
}

impl View for Frame {
    type V = FrameView;

    open spec fn view(&self) -> FrameView {
        model(self)
    }
}

/// The byte-string leaf that holds a text in UTF-8.
pub open spec fn blob(text: Seq<char>) -> FrameView {
    FrameView::BlobString(encode_utf8(text))
}

impl Frame {
    /// The byte-string leaf that holds a text in UTF-8.
    pub fn text(text: &str) -> (frame: Frame)
        ensures
            frame@ == blob(text@),
    {
        Frame::BlobString(text.as_bytes_vec())
    }

    /// A copy of the reply tree.
    pub fn copy(&self) -> (frame: Frame)
        ensures
            frame@ == self@,
        decreases self,
    {
        match self {
            Frame::BlobString(data) => Frame::BlobString(data.clone()),
            Frame::SimpleError(text) => Frame::SimpleError(text.clone()),
            Frame::Null => Frame::Null,
            Frame::Number(number) => Frame::Number(*number),
            Frame::Array(items) => {
                let mut copies: Vec<Frame> = Vec::new();
                let mut i: usize = 0;
                while i < items.len()
                    invariant
                        i <= items.len(),
                        copies.len() == i,
                        decreases_to!(self => *items),
                        forall|j: int| 0 <= j < i ==> copies[j]@ == items[j]@,
                    decreases items.len() - i,
                {
                    copies.push(items[i].copy());
                    i += 1;
                }
                let frame = Frame::Array(copies);
                assert(frame@->Array_0 =~= self@->Array_0);
                frame
            },
            Frame::Mapping(entries) => {
                let mut copies: Vec<(Frame, Frame)> = Vec::new();
                let mut i: usize = 0;
                while i < entries.len()
                    invariant
                        i <= entries.len(),
                        copies.len() == i,
                        decreases_to!(self => *entries),
                        forall|j: int|
                            0 <= j < i ==> copies[j].0@ == entries[j].0@ && copies[j].1@
                                == entries[j].1@,
                    decreases entries.len() - i,
                {
                    let key = entries[i].0.copy();
                    let value = entries[i].1.copy();
                    copies.push((key, value));
                    i += 1;
                }
                let frame = Frame::Mapping(copies);
                assert(frame@->Mapping_0 =~= self@->Mapping_0);
                frame
            },
        }
    }
}

impl Clone for Frame {
    fn clone(&self) -> (frame: Frame)
        ensures
            frame@ == self@,
    {
        self.copy()
    }
}

/// What handling came to: the model of the reply, or the message of the
/// failure.
pub open spec fn reply(result: Result<Frame, ProtocolError>) -> Result<FrameView, Seq<char>> {
    match result {
        Ok(frame) => Ok(frame@),
        Err(error) => Err(error@),
    }
}

/// A value that can be turned into a reply tree. The conversion is total
/// and is a function of the value alone.
pub trait AsFrame {
    /// The reply tree that stands for the value.
    spec fn frame_view(&self) -> FrameView;

    /// Turns the value into its reply tree.
    fn as_frame(&self) -> (frame: Frame)
        ensures
            frame@ == self.frame_view(),
    ;
}

impl AsFrame for i64 {
    open spec fn frame_view(&self) -> FrameView {
        FrameView::Number(*self as int)
    }

    fn as_frame(&self) -> (frame: Frame) {
        Frame::Number(*self)
    }
}

impl AsFrame for i32 {
    open spec fn frame_view(&self) -> FrameView {
        FrameView::Number(*self as int)
    }

    fn as_frame(&self) -> (frame: Frame) {
        Frame::Number(*self as i64)
    }
}

impl AsFrame for u16 {
    open spec fn frame_view(&self) -> FrameView {
        FrameView::Number(*self as int)
    }

    fn as_frame(&self) -> (frame: Frame) {
        Frame::Number(*self as i64)
    }
}

/// A count as an integer leaf. A count beyond the largest integer that a
/// leaf can hold is given as that largest integer.
pub open spec fn count_frame(count: nat) -> FrameView {
    if count <= i64::MAX {
        FrameView::Number(count as int)
    } else {
        FrameView::Number(i64::MAX as int)
    }
}

impl AsFrame for usize {
    open spec fn frame_view(&self) -> FrameView {
        count_frame(*self as nat)
    }

    fn as_frame(&self) -> (frame: Frame) {
        if *self as u64 <= i64::MAX as u64 {
            Frame::Number(*self as i64)
        } else {
            Frame::Number(i64::MAX)
        }
    }
}

impl AsFrame for String {
    open spec fn frame_view(&self) -> FrameView {
        blob(self@)
    }

    fn as_frame(&self) -> (frame: Frame) {
        Frame::text(self.as_str())
    }
}

impl AsFrame for &String {
    open spec fn frame_view(&self) -> FrameView {
        blob(self@)
    }

    fn as_frame(&self) -> (frame: Frame) {
        Frame::text(self.as_str())
    }
}

impl AsFrame for str {
    open spec fn frame_view(&self) -> FrameView {
        blob(self@)
    }

    fn as_frame(&self) -> (frame: Frame) {
        Frame::text(self)
    }
}

impl AsFrame for &str {
    open spec fn frame_view(&self) -> FrameView {
        blob(self@)
    }

    fn as_frame(&self) -> (frame: Frame) {
        Frame::text(*self)
    }
}

impl AsFrame for ProtocolError {
    /// A failure is a simple-error leaf that carries the failure's message.
    open spec fn frame_view(&self) -> FrameView {
        FrameView::SimpleError(self@)
    }

    fn as_frame(&self) -> (frame: Frame) {
        Frame::SimpleError(String::from_str(self.details()))
    }
}

impl AsFrame for Frame {
    open spec fn frame_view(&self) -> FrameView {
        self@
    }

    fn as_frame(&self) -> (frame: Frame) {
        self.copy()
    }
}

impl<V: AsFrame> AsFrame for Vec<V> {
    /// A sequence of values is the sequence of their reply trees.
    open spec fn frame_view(&self) -> FrameView {
        FrameView::Array(Seq::new(self.len() as nat, |i: int| self[i].frame_view()))
    }

    fn as_frame(&self) -> (frame: Frame) {
        let mut frames: Vec<Frame> = Vec::new();
        let mut i: usize = 0;
        while i < self.len()
            invariant
                i <= self.len(),
                frames.len() == i,
                forall|j: int| 0 <= j < i ==> frames[j]@ == self[j].frame_view(),
            decreases self.len() - i,
        {
            frames.push(self[i].as_frame());
            i += 1;
        }
        let frame = Frame::Array(frames);
        assert(frame@->Array_0 =~= self.frame_view()->Array_0);
        frame
    }
}

/// The reply trees of a list of pairs, flattened: first and second of each
/// pair in turn.
pub open spec fn flattened<T: AsFrame>(pairs: Seq<(T, T)>) -> Seq<FrameView> {
    Seq::new(
        2 * pairs.len(),
        |i: int|
            if i % 2 == 0 {
                pairs[i / 2].0.frame_view()
            } else {
                pairs[i / 2].1.frame_view()
            },
    )
}

/// A list of pairs comes flat: two reply trees for each pair, the first of
/// the pair and then the second, in the order of the pairs.
pub proof fn lemma_flattened_alternates<T: AsFrame>(pairs: Seq<(T, T)>)
    ensures
        flattened(pairs).len() == 2 * pairs.len(),
        forall|i: int|
            0 <= i < pairs.len() ==> #[trigger] flattened(pairs)[2 * i]
                == pairs[i].0.frame_view(),
        forall|i: int|
            0 <= i < pairs.len() ==> #[trigger] flattened(pairs)[2 * i + 1]
                == pairs[i].1.frame_view(),
{
    assert forall|i: int| 0 <= i < pairs.len() implies #[trigger] flattened(pairs)[2 * i]
        == pairs[i].0.frame_view() by {
        assert((2 * i) % 2 == 0 && (2 * i) / 2 == i);
    }
    assert forall|i: int| 0 <= i < pairs.len() implies #[trigger] flattened(pairs)[2 * i + 1]
        == pairs[i].1.frame_view() by {
        assert((2 * i + 1) % 2 == 1 && (2 * i + 1) / 2 == i);
    }
}

impl<T: AsFrame + Clone> AsFrame for Vec<(T, T)> {
    /// A list of pairs is one flat sequence, not a sequence of pairs.
    open spec fn frame_view(&self) -> FrameView {
        FrameView::Array(flattened(self@))
    }

    fn as_frame(&self) -> (frame: Frame) {
        let mut frames: Vec<Frame> = Vec::new();
        let mut i: usize = 0;
        while i < self.len()
            invariant
                i <= self.len(),
                frames.len() == 2 * i,
                forall|j: int| 0 <= j < i ==> frames[2 * j]@ == self[j].0.frame_view(),
                forall|j: int| 0 <= j < i ==> frames[2 * j + 1]@ == self[j].1.frame_view(),
            decreases self.len() - i,
        {
            frames.push(self[i].0.as_frame());
            frames.push(self[i].1.as_frame());
            i += 1;
        }
        let frame = Frame::Array(frames);
        assert(frame@->Array_0 =~= flattened(self@)) by {
            assert forall|k: int| 0 <= k < 2 * self.len() implies frame@->Array_0[k] == flattened(
                self@,
            )[k] by {
                let j = k / 2;
                if k % 2 == 0 {
                    assert(k == 2 * j);
                } else {
                    assert(k == 2 * j + 1);
                }
            }
        }
        frame
    }
}

/// The entries of a table as one flat sequence of reply trees: each key as
/// a byte-string leaf, then the reply tree of its value.
pub open spec fn flat_frames<V: AsFrame>(table: Table<V>) -> Seq<FrameView> {
    Seq::new(
        2 * table.keys().len(),
        |i: int|
            if i % 2 == 0 {
                blob(table.keys()[i / 2])
            } else {
                table.values()[i / 2].frame_view()
            },
    )
}

/// A table comes flat as two reply trees for each key: the key and then
/// its value, in the order of the keys.
pub proof fn lemma_flat_frames_alternate<V: AsFrame>(table: Table<V>)
    ensures
        flat_frames(table).len() == 2 * table.keys().len(),
        forall|i: int|
            0 <= i < table.keys().len() ==> #[trigger] flat_frames(table)[2 * i] == blob(
                table.keys()[i],
            ),
        forall|i: int|
            0 <= i < table.keys().len() ==> #[trigger] flat_frames(table)[2 * i + 1]
                == table.values()[i].frame_view(),
{
    assert forall|i: int| 0 <= i < table.keys().len() implies #[trigger] flat_frames(table)[2
        * i] == blob(table.keys()[i]) by {
        assert((2 * i) % 2 == 0 && (2 * i) / 2 == i);
    }
    assert forall|i: int| 0 <= i < table.keys().len() implies #[trigger] flat_frames(table)[2
        * i + 1] == table.values()[i].frame_view() by {
        assert((2 * i + 1) % 2 == 1 && (2 * i + 1) / 2 == i);
    }
}

/// Turns a table into one flat sequence: each key, then its value, in the
/// order of the keys.
pub fn map_to_array<V: AsFrame>(map: Table<V>) -> (frame: Frame)
    ensures
        frame@ == FrameView::Array(flat_frames(map)),
{
    let mut frames: Vec<Frame> = Vec::new();
    let mut i: usize = 0;
    while i < map.len()
        invariant
            i <= map.keys().len(),
            frames.len() == 2 * i,
            forall|j: int| 0 <= j < i ==> frames[2 * j]@ == blob(map.keys()[j]),
            forall|j: int| 0 <= j < i ==> frames[2 * j + 1]@ == map.values()[j].frame_view(),
        decreases map.keys().len() - i,
    {
        frames.push(Frame::text(map.key(i).as_str()));
        frames.push(map.value(i).as_frame());
        i += 1;
    }
    let frame = Frame::Array(frames);
    assert(frame@->Array_0 =~= flat_frames(map)) by {
        assert forall|k: int| 0 <= k < 2 * map.keys().len() implies frame@->Array_0[k]
            == flat_frames(map)[k] by {
            let j = k / 2;
            if k % 2 == 0 {
                assert(k == 2 * j);
            } else {
                assert(k == 2 * j + 1);
            }
        }
    }
    frame
}

} // verus!
