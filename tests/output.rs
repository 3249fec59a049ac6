use julia::output::frame_file_name;

#[test]
fn single_frame_named_by_title() {
    assert_eq!(frame_file_name("bean", 0, 1), "bean.png");
}

#[test]
fn animation_frames_numbered() {
    assert_eq!(frame_file_name("bean", 0, 10), "bean0000.png");
    assert_eq!(frame_file_name("bean", 7, 10), "bean0007.png");
    assert_eq!(frame_file_name("j", 12345, 20000), "j12345.png");
}
