use scape::cursor::{
    fallback_frames, frame, load_frames, nearest_images, total_delay, CursorAnimation, CursorImage,
};

/// An image chunk of an xcursor file with every pixel set to `pixel`.
fn image_chunk(size: u32, w: u32, h: u32, delay: u32, pixel: [u8; 4]) -> Vec<u8> {
    let mut out = Vec::new();
    for v in [0x24u32, 0xfffd_0002, size, 1, w, h, 0, 0, delay] {
        out.extend_from_slice(&v.to_le_bytes());
    }
    for _ in 0..(w * h) {
        out.extend_from_slice(&pixel);
    }
    out
}

/// An xcursor file holding the given images.
fn xcursor_file(images: &[(u32, u32, u32, u32, [u8; 4])]) -> Vec<u8> {
    let ntoc = images.len() as u32;
    let mut chunks = Vec::new();
    let mut positions = Vec::new();
    let mut pos = 16 + 12 * ntoc;
    for &(size, w, h, delay, pixel) in images {
        let c = image_chunk(size, w, h, delay, pixel);
        positions.push(pos);
        pos += c.len() as u32;
        chunks.push(c);
    }
    let mut out = Vec::new();
    out.extend_from_slice(b"Xcur");
    for v in [16u32, 0x1_0000, ntoc] {
        out.extend_from_slice(&v.to_le_bytes());
    }
    for (i, &(size, ..)) in images.iter().enumerate() {
        for v in [0xfffd_0002u32, size, positions[i]] {
            out.extend_from_slice(&v.to_le_bytes());
        }
    }
    for c in chunks {
        out.extend_from_slice(&c);
    }
    out
}

fn img(size: u32, width: u32, height: u32, delay: u32) -> CursorImage {
    CursorImage {
        size,
        width,
        height,
        xhot: 0,
        yhot: 0,
        delay,
        pixels_rgba: vec![size as u8; 4],
        pixels_argb: vec![],
    }
}

#[test]
fn frames_are_read_from_an_xcursor_file() {
    let file = xcursor_file(&[(24, 2, 2, 50, [1, 2, 3, 4]), (32, 3, 1, 70, [9, 9, 9, 9])]);
    let frames = load_frames(Some(&file), &[7, 7, 7, 7]);
    assert_eq!(frames.len(), 2);
    assert_eq!((frames[0].size, frames[0].width, frames[0].height, frames[0].delay), (24, 2, 2, 50));
    assert_eq!(frames[0].pixels_rgba, vec![1, 2, 3, 4, 1, 2, 3, 4, 1, 2, 3, 4, 1, 2, 3, 4]);
    assert_eq!(frames[0].pixels_argb[..4], [4, 1, 2, 3]);
    assert_eq!((frames[1].size, frames[1].width, frames[1].height, frames[1].delay), (32, 3, 1, 70));
}

#[test]
fn a_missing_or_broken_file_gives_the_fallback_frame() {
    let fallback = [5u8, 6, 7, 8];
    for frames in [load_frames(None, &fallback), load_frames(Some(b"not a cursor"), &fallback)] {
        assert_eq!(frames.len(), 1);
        let f = &frames[0];
        assert_eq!((f.size, f.width, f.height, f.xhot, f.yhot, f.delay), (32, 64, 64, 1, 1, 1));
        assert_eq!(f.pixels_rgba, fallback.to_vec());
        assert!(f.pixels_argb.is_empty());
    }
    assert_eq!(fallback_frames(&[1]).len(), 1);
}

#[test]
fn nearest_images_keep_the_frames_of_the_nearest_size() {
    let images = vec![img(24, 24, 24, 10), img(48, 48, 48, 20), img(24, 24, 24, 30), img(32, 32, 32, 5)];
    let near = nearest_images(30, &images);
    assert_eq!(near.iter().map(|i| i.delay).collect::<Vec<_>>(), vec![5]);
    let near = nearest_images(20, &images);
    assert_eq!(near.iter().map(|i| i.delay).collect::<Vec<_>>(), vec![10, 30]);
    // equally near: the first one wins
    let near = nearest_images(36, &images);
    assert_eq!(near.iter().map(|i| i.delay).collect::<Vec<_>>(), vec![5]);
}

#[test]
fn frames_follow_their_delays() {
    let images = vec![img(24, 24, 24, 10), img(24, 24, 24, 20), img(24, 24, 24, 30)];
    assert_eq!(total_delay(&images), 60);
    assert_eq!(frame(0, &images).delay, 10);
    assert_eq!(frame(9, &images).delay, 10);
    assert_eq!(frame(10, &images).delay, 20);
    assert_eq!(frame(29, &images).delay, 20);
    assert_eq!(frame(30, &images).delay, 30);
    assert_eq!(frame(59, &images).delay, 30);
}

#[test]
fn the_animation_repeats_every_round() {
    let images = vec![img(24, 24, 24, 10), img(48, 48, 48, 1), img(24, 24, 24, 20)];
    let anim = CursorAnimation::select(24, &images);
    assert_eq!(anim.total_delay(), 30);
    assert_eq!(anim.frame_at(5).delay, 10);
    assert_eq!(anim.frame_at(15).delay, 20);
    assert_eq!(anim.frame_at(35).delay, 10);
    assert_eq!(anim.frame_at(30_000_000_000_000_045).delay, 20);
}

fn one_pixel_frame(delay: u32, pixel: u8) -> scape::cursor::CursorImage {
    scape::cursor::CursorImage {
        size: 24,
        width: 1,
        height: 1,
        xhot: 0,
        yhot: 0,
        delay,
        pixels_rgba: vec![pixel, pixel, pixel, 255],
        pixels_argb: vec![255, pixel, pixel, pixel],
    }
}

#[test]
fn textures_are_found_again_by_frame_content() {
    let mut textures = scape::cursor::FrameTextures::<u32>::new();
    assert_eq!(textures.lookup(&one_pixel_frame(10, 1)), None);
    textures.insert(one_pixel_frame(10, 1), 7);
    // an equal frame built anew finds the stored texture
    assert_eq!(textures.lookup(&one_pixel_frame(10, 1)), Some(&7));
    // frames that differ in a pixel or a delay do not
    assert_eq!(textures.lookup(&one_pixel_frame(10, 2)), None);
    assert_eq!(textures.lookup(&one_pixel_frame(11, 1)), None);
    textures.insert(one_pixel_frame(10, 2), 8);
    assert_eq!(textures.lookup(&one_pixel_frame(10, 2)), Some(&8));
    assert_eq!(textures.lookup(&one_pixel_frame(10, 1)), Some(&7));
}

#[test]
fn images_compare_by_every_field() {
    assert!(one_pixel_frame(3, 4).same_as(&one_pixel_frame(3, 4)));
    assert!(!one_pixel_frame(3, 4).same_as(&one_pixel_frame(3, 5)));
    let mut other = one_pixel_frame(3, 4);
    other.pixels_argb.push(0);
    assert!(!one_pixel_frame(3, 4).same_as(&other));
}

#[test]
fn a_texture_is_made_only_for_a_new_frame() {
    let mut textures = scape::cursor::FrameTextures::<u32>::new();
    let mut uploads = 0;
    let first = textures.lookup_or_insert(one_pixel_frame(5, 1), || {
        uploads += 1;
        40
    });
    assert_eq!(first, 0);
    let again = textures.lookup_or_insert(one_pixel_frame(5, 1), || {
        uploads += 1;
        41
    });
    assert_eq!(again, 0);
    assert_eq!(*textures.texture(again), 40);
    let other = textures.lookup_or_insert(one_pixel_frame(6, 1), || {
        uploads += 1;
        42
    });
    assert_eq!(other, 1);
    assert_eq!(*textures.texture(other), 42);
    assert_eq!(uploads, 2);
    assert_eq!(textures.len(), 2);
}
