use eve_preview_manager::icon::{
    load_tray_icon_pixmap, load_window_icon, rgb_to_argb, rgb_to_rgba, rgba_to_argb,
    tray_icon_from_image, window_icon_from_image, IconError,
};

// 2x1 RGBA image: (10,20,30,40) (50,60,70,80)
const RGBA_PNG: [u8; 74] = [
    137, 80, 78, 71, 13, 10, 26, 10, 0, 0, 0, 13, 73, 72, 68, 82, 0, 0, 0, 2, 0, 0, 0, 1, 8, 6, 0,
    0, 0, 244, 34, 127, 138, 0, 0, 0, 17, 73, 68, 65, 84, 120, 156, 99, 224, 18, 145, 211, 48, 178,
    113, 11, 0, 0, 4, 185, 1, 105, 3, 157, 86, 55, 0, 0, 0, 0, 73, 69, 78, 68, 174, 66, 96, 130,
];

// 1x2 RGB image: (1,2,3) over (4,5,6)
const RGB_PNG: [u8; 73] = [
    137, 80, 78, 71, 13, 10, 26, 10, 0, 0, 0, 13, 73, 72, 68, 82, 0, 0, 0, 1, 0, 0, 0, 2, 8, 2, 0,
    0, 0, 22, 227, 33, 112, 0, 0, 0, 16, 73, 68, 65, 84, 120, 156, 99, 96, 100, 98, 102, 96, 97,
    101, 3, 0, 0, 70, 0, 22, 119, 245, 200, 127, 0, 0, 0, 0, 73, 69, 78, 68, 174, 66, 96, 130,
];

// 1x1 grayscale image
const GRAY_PNG: [u8; 67] = [
    137, 80, 78, 71, 13, 10, 26, 10, 0, 0, 0, 13, 73, 72, 68, 82, 0, 0, 0, 1, 0, 0, 0, 1, 8, 0, 0,
    0, 0, 58, 126, 155, 85, 0, 0, 0, 10, 73, 68, 65, 84, 120, 156, 99, 224, 4, 0, 0, 11, 0, 10,
    195, 43, 238, 146, 0, 0, 0, 0, 73, 69, 78, 68, 174, 66, 96, 130,
];

#[test]
fn pixel_layouts_are_reordered() {
    assert_eq!(rgba_to_argb(&vec![1, 2, 3, 4, 5, 6, 7, 8, 9]), vec![4, 1, 2, 3, 8, 5, 6, 7]);
    assert_eq!(rgb_to_argb(&vec![1, 2, 3, 4, 5, 6, 7]), vec![255, 1, 2, 3, 255, 4, 5, 6]);
    assert_eq!(rgb_to_rgba(&vec![1, 2, 3, 4, 5, 6, 7, 8]), vec![1, 2, 3, 255, 4, 5, 6, 255]);
}

#[test]
fn icons_from_decoded_images() {
    let tray = tray_icon_from_image(1, 1, 2, &vec![7, 8, 9]).unwrap();
    assert_eq!((tray.width, tray.height, tray.data), (1, 1, vec![255, 7, 8, 9]));
    let window = window_icon_from_image(1, 1, 6, &vec![7, 8, 9, 10]).unwrap();
    assert_eq!((window.width, window.height, window.rgba), (1, 1, vec![7, 8, 9, 10]));
    assert_eq!(tray_icon_from_image(1, 1, 0, &vec![7]).unwrap_err(), IconError::UnsupportedColorType(0));
    assert_eq!(window_icon_from_image(1, 1, 4, &vec![7, 8]).unwrap_err(), IconError::UnsupportedColorType(4));
}

#[test]
fn tray_icon_decodes_png() {
    let icon = load_tray_icon_pixmap(&RGBA_PNG).unwrap();
    assert_eq!((icon.width, icon.height), (2, 1));
    assert_eq!(icon.data, vec![40, 10, 20, 30, 80, 50, 60, 70]);
    let icon = load_tray_icon_pixmap(&RGB_PNG).unwrap();
    assert_eq!((icon.width, icon.height), (1, 2));
    assert_eq!(icon.data, vec![255, 1, 2, 3, 255, 4, 5, 6]);
}

#[test]
fn window_icon_decodes_png() {
    let icon = load_window_icon(&RGBA_PNG).unwrap();
    assert_eq!((icon.width, icon.height), (2, 1));
    assert_eq!(icon.rgba, vec![10, 20, 30, 40, 50, 60, 70, 80]);
    let icon = load_window_icon(&RGB_PNG).unwrap();
    assert_eq!(icon.rgba, vec![1, 2, 3, 255, 4, 5, 6, 255]);
}

#[test]
fn icon_errors() {
    assert_eq!(load_tray_icon_pixmap(&GRAY_PNG).unwrap_err(), IconError::UnsupportedColorType(0));
    assert_eq!(load_window_icon(&GRAY_PNG).unwrap_err(), IconError::UnsupportedColorType(0));
    assert_eq!(load_tray_icon_pixmap(&[1, 2, 3]).unwrap_err(), IconError::Decode);
    assert_eq!(load_window_icon(&[]).unwrap_err(), IconError::Decode);
}
