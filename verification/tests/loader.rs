use writeonce::loader::{kernel_cmdline, load_options_utf16};

#[test]
fn cmdline_gets_the_initramfs_appended() {
    assert_eq!(
        kernel_cmdline(b"root=UUID=abc ro quiet\r\n\0"),
        "root=UUID=abc ro quiet initrd=\\EFI\\WriteOnce\\initramfs.img"
    );
}

#[test]
fn cmdline_that_names_an_initrd_is_kept() {
    assert_eq!(kernel_cmdline(b"root=/dev/sda2 initrd=\\x.img\n"), "root=/dev/sda2 initrd=\\x.img");
}

#[test]
fn unreadable_cmdline_is_just_the_initramfs() {
    assert_eq!(kernel_cmdline(&[0xff, 0xfe, b'a']), " initrd=\\EFI\\WriteOnce\\initramfs.img");
    assert_eq!(kernel_cmdline(b""), " initrd=\\EFI\\WriteOnce\\initramfs.img");
}

#[test]
fn only_trailing_line_ends_go() {
    assert_eq!(
        kernel_cmdline(b"a\nb\n"),
        "a\nb initrd=\\EFI\\WriteOnce\\initramfs.img"
    );
}

#[test]
fn load_options_are_utf16_with_a_trailing_zero() {
    assert_eq!(load_options_utf16("ro"), vec![0x72u16, 0x6f, 0]);
    assert_eq!(load_options_utf16(""), vec![0u16]);
    let text = "root=/dev/sda2 é \u{1F600}";
    let mut expected: Vec<u16> = text.encode_utf16().collect();
    expected.push(0);
    assert_eq!(load_options_utf16(text), expected);
    assert_eq!(load_options_utf16("\u{1F600}"), vec![0xD83D, 0xDE00, 0]);
    let cmdline = kernel_cmdline(b"quiet\n");
    assert_eq!(load_options_utf16(&cmdline).len(), cmdline.len() + 1);
}
