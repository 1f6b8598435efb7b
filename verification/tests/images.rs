//! Camera images: pixel access, rows, the image list and its iterator.

use leap::image::Camera;
use leap::image::Image;
use leap::image::ImageList;
use leap::Controller;
use leap::Event;
use leap::Listener;
use leap::ManagedController;
use leap::Timestamp;

struct Quiet;

impl Listener for Quiet {}

fn sample_image(sequence_id: i64, camera: Camera) -> Image {
    Image::new(
        camera,
        sequence_id,
        Timestamp::from_raw(1000),
        3,
        2,
        1,
        vec![10, 11, 12, 20, 21, 22],
    )
}

#[test]
fn image_accessors_report_what_was_recorded() {
    let img = sample_image(5, Camera::Left);
    assert_eq!(img.camera(), Camera::Left);
    assert_eq!(img.sequence_id(), 5);
    assert_eq!(img.timestamp().as_raw(), 1000);
    assert_eq!(img.width(), 3);
    assert_eq!(img.height(), 2);
    assert_eq!(img.bytes_per_pixel(), 1);
    assert_eq!(img.raw_data(), &[10, 11, 12, 20, 21, 22]);
}

#[test]
fn pixel_reads_row_major_data() {
    let img = sample_image(1, Camera::Right);
    let data = img.data();
    assert_eq!(data.pixel(0, 0), 10);
    assert_eq!(data.pixel(2, 0), 12);
    assert_eq!(data.pixel(0, 1), 20);
    assert_eq!(data.pixel(2, 1), 22);
    assert_eq!(data.raw(), &[10, 11, 12, 20, 21, 22]);
}

#[test]
fn rows_split_the_data_by_width() {
    let img = sample_image(1, Camera::Left);
    let rows = img.data().rows();
    assert_eq!(rows, vec![vec![10, 11, 12], vec![20, 21, 22]]);
}

#[test]
fn distortion_map_dimensions_are_fixed() {
    let img = sample_image(1, Camera::Left);
    assert_eq!(img.distortion_width(), 64);
    assert_eq!(img.distortion_stride(), 128);
    assert_eq!(img.distortion_height(), 64);
}

#[test]
fn image_list_reports_length_and_emptiness() {
    let empty = ImageList::from_raw(Vec::new());
    assert_eq!(empty.len(), 0);
    assert!(empty.is_empty());
    let list = ImageList::from_raw(vec![
        sample_image(1, Camera::Left),
        sample_image(1, Camera::Right),
    ]);
    assert_eq!(list.len(), 2);
    assert!(!list.is_empty());
    assert_eq!(list.get(0).camera(), Camera::Left);
    assert_eq!(list.get(1).camera(), Camera::Right);
}

#[test]
fn image_list_iterator_walks_in_order() {
    let list = ImageList::from_raw(vec![
        sample_image(1, Camera::Left),
        sample_image(2, Camera::Right),
        sample_image(3, Camera::Left),
    ]);
    let mut it = list.iter();
    let mut ids = Vec::new();
    while let Some(img) = it.next() {
        ids.push(img.sequence_id());
    }
    assert_eq!(ids, vec![1, 2, 3]);
    assert!(it.next().is_none());
}

#[test]
fn controller_hands_out_the_recorded_images() {
    let mut c: Controller<Quiet> = Controller::new();
    assert!(c.session().images().is_empty());
    c.set_images(ImageList::from_raw(vec![
        sample_image(9, Camera::Left),
        sample_image(9, Camera::Right),
    ]));
    let images = c.session().images();
    assert_eq!(images.len(), 2);
    assert_eq!(images.get(0).sequence_id(), 9);
}

#[test]
fn images_wait_pairs_with_recorded_images() {
    let mut mc: ManagedController<Quiet> = ManagedController::new();
    let ticket = mc.wait_until_images();
    mc.controller_mut().set_images(ImageList::from_raw(vec![sample_image(1, Camera::Left)]));
    let released = mc.deliver(Event::Images);
    assert_eq!(released, vec![ticket]);
    assert_eq!(mc.session().images().len(), 1);
}
