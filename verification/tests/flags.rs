use turso_mini::io::OpenFlags;

#[test]
fn test_individual_flags() {
    let none_flag = OpenFlags::none();
    let create_flag = OpenFlags::create();
    let read_only_flag = OpenFlags::read_only();

    assert_eq!(none_flag.bits(), 0);
    assert_eq!(create_flag.bits(), 1);
    assert_eq!(read_only_flag.bits(), 2);
}

#[test]
fn test_combined_flags() {
    let combined = OpenFlags::create() | OpenFlags::read_only();
    assert_eq!(combined.bits(), 3);

    assert!(combined.contains(OpenFlags::create()));
    assert!(combined.contains(OpenFlags::read_only()));
    assert!(combined.contains(OpenFlags::none()));
}

#[test]
fn test_default_flags() {
    let default_flags = OpenFlags::default();
    assert_eq!(default_flags, OpenFlags::create());
}

#[test]
fn mod_test_individual_flags() {
    let none_flag = OpenFlags::none();
    let create_flag = OpenFlags::create();
    let read_only_flag = OpenFlags::read_only();

    assert_eq!(none_flag.bits(), 0);
    assert_eq!(create_flag.bits(), 1);
    assert_eq!(read_only_flag.bits(), 2);
}

#[test]
fn mod_test_combined_flags() {
    let combined = OpenFlags::create() | OpenFlags::read_only();
    assert_eq!(combined.bits(), 3);

    assert!(combined.contains(OpenFlags::create()));
    assert!(combined.contains(OpenFlags::read_only()));
    assert!(combined.contains(OpenFlags::none()));
}

#[test]
fn mod_test_default_flags() {
    let default_flags = OpenFlags::default();
    assert_eq!(default_flags, OpenFlags::create());
}
