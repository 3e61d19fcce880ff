use winit_platform::orbital::{check_transfer, path_from_buffer, WindowProperties, EINVAL};

fn fields(p: &WindowProperties<'_>) -> (String, i32, i32, u32, u32, String) {
    (p.flags.to_string(), p.x, p.y, p.w, p.h, p.title.to_string())
}

#[test]
fn reads_a_full_path() {
    let p = WindowProperties::new("flags/10/20/300/400/My Title");
    assert_eq!(fields(&p), ("flags".to_string(), 10, 20, 300, 400, "My Title".to_string()));
}

#[test]
fn title_keeps_the_rest_of_the_path() {
    let p = WindowProperties::new("f/1/2/3/4/a/b/c");
    assert_eq!(fields(&p), ("f".to_string(), 1, 2, 3, 4, "a/b/c".to_string()));
}

#[test]
fn missing_parts_read_as_empty_or_zero() {
    let p = WindowProperties::new("f/1");
    assert_eq!(fields(&p), ("f".to_string(), 1, 0, 0, 0, String::new()));
    let q = WindowProperties::new("");
    assert_eq!(fields(&q), (String::new(), 0, 0, 0, 0, String::new()));
    let r = WindowProperties::new("a/");
    assert_eq!(fields(&r), ("a".to_string(), 0, 0, 0, 0, String::new()));
    let s = WindowProperties::new("a/1/2/3/4/");
    assert_eq!(fields(&s), ("a".to_string(), 1, 2, 3, 4, String::new()));
}

#[test]
fn numbers_that_do_not_read_are_zero() {
    let p = WindowProperties::new("f/abc/-5/-3/+7/t");
    assert_eq!(fields(&p), ("f".to_string(), 0, -5, 0, 7, "t".to_string()));
    let q = WindowProperties::new("f/+/-/ 1/1 /t");
    assert_eq!(fields(&q), ("f".to_string(), 0, 0, 0, 0, "t".to_string()));
    let r = WindowProperties::new("f/+12/007/0012/00/t");
    assert_eq!(fields(&r), ("f".to_string(), 12, 7, 12, 0, "t".to_string()));
}

#[test]
fn numbers_at_the_limits() {
    let p = WindowProperties::new("f/2147483648/-2147483648/4294967295/4294967296/t");
    assert_eq!(fields(&p), ("f".to_string(), 0, i32::MIN, u32::MAX, 0, "t".to_string()));
    let q = WindowProperties::new("f/2147483647/-2147483649/99999999999999999999/1/t");
    assert_eq!(fields(&q), ("f".to_string(), i32::MAX, 0, 0, 1, "t".to_string()));
}

#[test]
fn reads_non_ascii_text() {
    let p = WindowProperties::new("fé/1/2/3/4/título ✓");
    assert_eq!(fields(&p), ("fé".to_string(), 1, 2, 3, 4, "título ✓".to_string()));
    let q = WindowProperties::new("f/１/2/3/4/t");
    assert_eq!(q.x, 0);
}

#[test]
fn writes_the_display_path() {
    let p = WindowProperties { flags: "f", x: -3, y: 0, w: 640, h: 480, title: "T" };
    assert_eq!(p.to_string(), "/scheme/orbital/f/-3/0/640/480/T");
    let q = WindowProperties {
        flags: "",
        x: i32::MIN,
        y: i32::MAX,
        w: u32::MAX,
        h: 0,
        title: "a/b",
    };
    assert_eq!(q.to_string(), "/scheme/orbital//-2147483648/2147483647/4294967295/0/a/b");
}

#[test]
fn display_path_reads_back() {
    let p = WindowProperties { flags: "abc", x: -17, y: 42, w: 1024, h: 768, title: "x/y z" };
    let path = p.to_string();
    let fields_part = path.strip_prefix("/scheme/orbital/").unwrap();
    let q = WindowProperties::new(fields_part);
    assert_eq!(fields(&q), fields(&p));
}

#[test]
fn flags_with_a_slash_do_not_read_back() {
    let p = WindowProperties { flags: "a/b", x: 1, y: 2, w: 3, h: 4, title: "t" };
    let path = p.to_string();
    let q = WindowProperties::new(path.strip_prefix("/scheme/orbital/").unwrap());
    assert_eq!(q.flags, "a");
    assert_eq!(q.title, "4/t");
}

#[test]
fn whole_transfers_succeed() {
    assert!(check_transfer(4, 4).is_ok());
    assert!(check_transfer(0, 0).is_ok());
}

#[test]
fn partial_transfers_fail_with_invalid_argument() {
    assert_eq!(check_transfer(3, 4), Err(EINVAL));
    assert_eq!(check_transfer(5, 4), Err(EINVAL));
    assert_eq!(check_transfer(0, 4), Err(EINVAL));
}

#[test]
fn path_from_buffer_reads_the_written_prefix() {
    let buf = *b"orbital:w/1/2/3/4/t\xff\xff";
    assert_eq!(path_from_buffer(&buf, 19).unwrap(), "orbital:w/1/2/3/4/t");
    assert_eq!(path_from_buffer(&buf, 0).unwrap(), "");
}

#[test]
fn path_from_buffer_refuses_invalid_utf8() {
    let buf = *b"abc\xff";
    assert_eq!(path_from_buffer(&buf, 4), Err(EINVAL));
    let cut = "é".as_bytes();
    assert!(path_from_buffer(cut, 1).is_err());
    assert_eq!(path_from_buffer(cut, 2).unwrap(), "é");
}

#[test]
fn einval_is_the_redox_error_number() {
    assert_eq!(EINVAL, syscall::EINVAL);
    assert_eq!(syscall::Error::new(EINVAL), syscall::Error::new(syscall::EINVAL));
}
