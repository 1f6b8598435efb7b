//! Raw camera images and their pixel data.
//!
//! Receiving camera data requires enabling the image-delivery policy on the
//! controller.

use vstd::prelude::*;
use crate::Timestamp;

verus! {

/// Identifies one of the cameras on the tracking device.
#[derive(Debug, Clone, Copy, PartialEq, Eq, Structural)]
pub enum Camera {
    Left,
    Right,
}

/// A raw camera image, alongside the dimensions of its distortion map.
pub struct Image {
    camera: Camera,
    sequence_id: i64,
    timestamp: Timestamp,
    width: usize,
    height: usize,
    bytes_per_pixel: usize,
    data: Vec<u8>,
}

impl Image {
    /// Which camera captured this image.
    pub closed spec fn spec_camera(&self) -> Camera {
        self.camera
    }

    /// The image sequence number.
    pub closed spec fn spec_sequence_id(&self) -> i64 {
        self.sequence_id
    }

    /// The capture timestamp.
    pub closed spec fn spec_timestamp(&self) -> Timestamp {
        self.timestamp
    }

    /// The image width in pixels.
    pub closed spec fn spec_width(&self) -> int {
        self.width as int
    }

    /// The image height in pixels.
    pub closed spec fn spec_height(&self) -> int {
        self.height as int
    }

    /// The number of bytes per pixel.
    pub closed spec fn spec_bytes_per_pixel(&self) -> int {
        self.bytes_per_pixel as int
    }

    /// The raw pixel bytes.
    pub closed spec fn spec_data(&self) -> Seq<u8> {
        self.data@
    }

    /// An image is well formed when it carries exactly one pixel row per line:
    /// `width * height * bytes_per_pixel` data bytes.
    pub open spec fn wf(&self) -> bool {
        self.spec_data().len() == self.spec_width() * self.spec_height() * self.spec_bytes_per_pixel()
    }

    /// Builds an image from its dimensions and pixel bytes.
    pub fn new(
        camera: Camera,
        sequence_id: i64,
        timestamp: Timestamp,
        width: usize,
        height: usize,
        bytes_per_pixel: usize,
        data: Vec<u8>,
    ) -> (img: Image)
        requires
            data@.len() == width * height * bytes_per_pixel,
        ensures
            img.wf(),
            img.spec_camera() == camera,
            img.spec_sequence_id() == sequence_id,
            img.spec_timestamp() == timestamp,
            img.spec_width() == width,
            img.spec_height() == height,
            img.spec_bytes_per_pixel() == bytes_per_pixel,
            img.spec_data() == data@,
    {
        Image { camera, sequence_id, timestamp, width, height, bytes_per_pixel, data }
    }

    /// Returns which camera captured this image.
    pub fn camera(&self) -> (r: Camera)
        ensures
            r == self.spec_camera(),
    {
        self.camera
    }

    /// Returns the image sequence number.
    pub fn sequence_id(&self) -> (r: i64)
        ensures
            r == self.spec_sequence_id(),
    {
        self.sequence_id
    }

    /// Returns the capture timestamp.
    pub fn timestamp(&self) -> (r: Timestamp)
        ensures
            r == self.spec_timestamp(),
    {
        self.timestamp
    }

    /// Returns the image width in pixels.
    pub fn width(&self) -> (r: usize)
        ensures
            r == self.spec_width(),
    {
        self.width
    }

    /// Returns the image height in pixels.
    pub fn height(&self) -> (r: usize)
        ensures
            r == self.spec_height(),
    {
        self.height
    }

    /// Returns the number of bytes per pixel.
    pub fn bytes_per_pixel(&self) -> (r: usize)
        ensures
            r == self.spec_bytes_per_pixel(),
    {
        self.bytes_per_pixel
    }

    /// Returns the raw image bytes.
    pub fn raw_data(&self) -> (r: &[u8])
        ensures
            r@ == self.spec_data(),
    {
        self.data.as_slice()
    }

    /// Returns the pixel data together with the row width.
    pub fn data(&self) -> (d: ImageData)
        ensures
            d.spec_raw() == self.spec_data(),
            d.spec_width() == self.spec_width(),
    {
        ImageData { raw: self.data.as_slice(), width: self.width }
    }

    /// The number of entries in each row of the distortion map.
    pub fn distortion_width(&self) -> (r: usize)
        ensures
            r == 64,
    {
        64
    }

    /// The number of values in each row of the distortion map: two
    /// coordinates per entry.
    pub fn distortion_stride(&self) -> (r: usize)
        ensures
            r == 128,
    {
        let w = self.distortion_width();
        w * 2
    }

    /// The number of rows in the distortion map.
    pub fn distortion_height(&self) -> (r: usize)
        ensures
            r == 64,
    {
        64
    }
}

/// A sequence split into consecutive chunks of `w` elements, the last chunk
/// holding whatever remains.
pub open spec fn chunks_of(s: Seq<u8>, w: int) -> Seq<Seq<u8>>
    decreases s.len()
        when w >= 1
{
    if s.len() == 0 {
        Seq::empty()
    } else if s.len() <= w {
        seq![s]
    } else {
        seq![s.take(w)] + chunks_of(s.skip(w), w)
    }
}

/// The pixel data comprising a camera image.
pub struct ImageData<'a> {
    raw: &'a [u8],
    width: usize,
}

impl<'a> ImageData<'a> {
    /// The raw bytes.
    pub closed spec fn spec_raw(&self) -> Seq<u8> {
        self.raw@
    }

    /// The width of one row, in bytes.
    pub closed spec fn spec_width(&self) -> int {
        self.width as int
    }

    /// Returns the raw image data as a slice of bytes.
    pub fn raw(&self) -> (r: &'a [u8])
        ensures
            r@ == self.spec_raw(),
    {
        self.raw
    }

    /// Returns the pixel value at the given coordinates.
    pub fn pixel(&self, x: usize, y: usize) -> (p: u8)
        requires
            y * self.spec_width() + x < self.spec_raw().len(),
        ensures
            p == self.spec_raw()[y * self.spec_width() + x],
    {
        let len = self.raw.len();
        assert(y * self.spec_width() + x < len);
        self.raw[y * self.width + x]
    }

    /// Returns the rows of image data, top to bottom: consecutive chunks of
    /// `width` bytes, the last row holding whatever remains.
    pub fn rows(&self) -> (rows: Vec<Vec<u8>>)
        requires
            self.spec_width() >= 1,
        ensures
            rows@.map_values(|row: Vec<u8>| row@) == chunks_of(self.spec_raw(), self.spec_width()),
    {
        let len = self.raw.len();
        let mut rows: Vec<Vec<u8>> = Vec::new();
        let mut start: usize = 0;
        proof {
            assert(self.spec_raw().skip(0) =~= self.spec_raw());
            assert(rows@.map_values(|row: Vec<u8>| row@) + chunks_of(self.spec_raw(), self.spec_width())
                =~= chunks_of(self.spec_raw(), self.spec_width()));
        }
        while start < len
            invariant
                self.spec_width() >= 1,
                len == self.spec_raw().len(),
                start <= len,
                rows@.map_values(|row: Vec<u8>| row@) + chunks_of(
                    self.spec_raw().skip(start as int),
                    self.spec_width(),
                ) == chunks_of(self.spec_raw(), self.spec_width()),
            decreases len - start,
        {
            let remaining = len - start;
            let end = if remaining <= self.width {
                len
            } else {
                start + self.width
            };
            let mut row: Vec<u8> = Vec::new();
            let mut j = start;
            while j < end
                invariant
                    start <= j <= end <= len,
                    len == self.spec_raw().len(),
                    row@ == self.spec_raw().subrange(start as int, j as int),
                decreases end - j,
            {
                let byte = self.raw[j];
                row.push(byte);
                proof {
                    assert(self.spec_raw().subrange(start as int, j as int + 1)
                        =~= self.spec_raw().subrange(start as int, j as int).push(byte));
                }
                j = j + 1;
            }
            let ghost rows_pre = rows@.map_values(|r: Vec<u8>| r@);
            let ghost rest = self.spec_raw().skip(start as int);
            rows.push(row);
            proof {
                assert(rows@.map_values(|r: Vec<u8>| r@)
                    =~= rows_pre.push(self.spec_raw().subrange(start as int, end as int)));
                if len - start <= self.spec_width() {
                    assert(rest =~= self.spec_raw().subrange(start as int, end as int));
                    assert(chunks_of(rest, self.spec_width()) == seq![rest]);
                    assert(self.spec_raw().skip(end as int) =~= Seq::<u8>::empty());
                    assert(rows_pre.push(rest) + chunks_of(self.spec_raw().skip(end as int), self.spec_width())
                        =~= rows_pre + chunks_of(rest, self.spec_width()));
                } else {
                    assert(rest.take(self.spec_width()) =~= self.spec_raw().subrange(start as int, end as int));
                    assert(rest.skip(self.spec_width()) =~= self.spec_raw().skip(end as int));
                    assert(chunks_of(rest, self.spec_width())
                        == seq![rest.take(self.spec_width())] + chunks_of(rest.skip(self.spec_width()), self.spec_width()));
                    assert(rows_pre.push(rest.take(self.spec_width()))
                        + chunks_of(self.spec_raw().skip(end as int), self.spec_width())
                        =~= rows_pre + chunks_of(rest, self.spec_width()));
                }
            }
            start = end;
        }
        proof {
            assert(self.spec_raw().skip(start as int) =~= Seq::<u8>::empty());
            assert(chunks_of(Seq::<u8>::empty(), self.spec_width()) == Seq::<Seq<u8>>::empty());
            assert(rows@.map_values(|row: Vec<u8>| row@) + Seq::<Seq<u8>>::empty()
                =~= rows@.map_values(|row: Vec<u8>| row@));
        }
        rows
    }
}

/// A list of raw camera images recorded by the tracking device.
pub struct ImageList {
    images: Vec<Image>,
}

impl View for ImageList {
    type V = Seq<Image>;

    closed spec fn view(&self) -> Seq<Image> {
        self.images@
    }
}

impl ImageList {
    /// Builds a list from the images it holds.
    pub fn from_raw(images: Vec<Image>) -> (l: ImageList)
        ensures
            l@ == images@,
    {
        ImageList { images }
    }

    /// Returns the number of images in the list.
    pub fn len(&self) -> (n: usize)
        ensures
            n == self@.len(),
    {
        self.images.len()
    }

    /// Returns whether this list is empty.
    pub fn is_empty(&self) -> (r: bool)
        ensures
            r == (self@.len() == 0),
    {
        self.images.len() == 0
    }

    /// Returns the image at the given position.
    pub fn get(&self, i: usize) -> (img: &Image)
        requires
            i < self@.len(),
        ensures
            *img == self@[i as int],
    {
        &self.images[i]
    }

    /// Returns an iterator over the images in the list.
    pub fn iter(&self) -> (it: ImageListIterator)
        ensures
            it.spec_list() == self@,
            it.spec_pos() == 0,
    {
        ImageListIterator { list: self, next: 0 }
    }
}

/// An iterator over the images in an [`ImageList`].
pub struct ImageListIterator<'a> {
    list: &'a ImageList,
    next: usize,
}

impl<'a> ImageListIterator<'a> {
    /// The list being walked.
    pub closed spec fn spec_list(&self) -> Seq<Image> {
        self.list@
    }

    /// The position of the next image to hand out.
    pub closed spec fn spec_pos(&self) -> int {
        self.next as int
    }

    /// Returns the next image, or `None` once the list is exhausted.
    pub fn next(&mut self) -> (r: Option<&'a Image>)
        requires
            old(self).spec_pos() <= old(self).spec_list().len(),
        ensures
            final(self).spec_list() == old(self).spec_list(),
            final(self).spec_pos() <= final(self).spec_list().len(),
            old(self).spec_pos() < old(self).spec_list().len() ==> {
                &&& r matches Some(img) && *img == old(self).spec_list()[old(self).spec_pos()]
                &&& final(self).spec_pos() == old(self).spec_pos() + 1
            },
            old(self).spec_pos() == old(self).spec_list().len() ==> {
                &&& r is None
                &&& final(self).spec_pos() == old(self).spec_pos()
            },
    {
        if self.next < self.list.images.len() {
            let img = &self.list.images[self.next];
            self.next = self.next + 1;
            Some(img)
        } else {
            None
        }
    }
}

} // verus!
