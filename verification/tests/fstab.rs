use bootc_deploy::fstab::{edit_fstab_line, fixup_etc_fstab};
use cap_std_ext::cap_std;
use cap_std_ext::cap_tempfile::TempDir;
use cap_std_ext::dirext::CapStdExtDirExt;

/// Writes the file, rewrites it in place, and reads it back.
fn rewritten(content: &str) -> String {
    let tempdir = TempDir::new(cap_std::ambient_authority()).unwrap();
    tempdir.create_dir_all("etc").unwrap();
    tempdir.atomic_write("etc/fstab", content).unwrap();
    let old = tempdir.read_to_string("etc/fstab").unwrap();
    tempdir
        .atomic_write("etc/fstab", fixup_etc_fstab(&old))
        .unwrap();
    tempdir.read_to_string("etc/fstab").unwrap()
}

#[test]
fn test_fixup_etc_fstab_default() {
    let default = "UUID=f7436547-20ac-43cb-aa2f-eac9632183f6 /boot auto ro 0 0\n";
    assert_eq!(rewritten(default), default);
}

#[test]
fn test_fixup_etc_fstab_multi() {
    let default = "UUID=f7436547-20ac-43cb-aa2f-eac9632183f6 /boot auto ro 0 0\n\
UUID=6907-17CA          /boot/efi               vfat    umask=0077,shortname=winnt 0 2\n";
    assert_eq!(rewritten(default), default);
}

#[test]
fn test_fixup_etc_fstab_ro() {
    let default = "UUID=f7436547-20ac-43cb-aa2f-eac9632183f6 /boot auto ro 0 0\n\
UUID=1eef9f42-40e3-4bd8-ae20-e9f2325f8b52 /                     xfs   ro 0 0\n\
UUID=6907-17CA          /boot/efi               vfat    umask=0077,shortname=winnt 0 2\n";
    assert_eq!(rewritten(default), default);
}

#[test]
fn test_fixup_etc_fstab_rw() {
    // This case uses `defaults`
    let default = "UUID=f7436547-20ac-43cb-aa2f-eac9632183f6 /boot auto ro 0 0\n\
UUID=1eef9f42-40e3-4bd8-ae20-e9f2325f8b52 /                     xfs   defaults 0 0\n\
UUID=6907-17CA          /boot/efi               vfat    umask=0077,shortname=winnt 0 2\n";
    let modified = "UUID=f7436547-20ac-43cb-aa2f-eac9632183f6 /boot auto ro 0 0\n\
# Updated by bootc-fstab-edit.service\n\
UUID=1eef9f42-40e3-4bd8-ae20-e9f2325f8b52 / xfs defaults,ro 0 0\n\
UUID=6907-17CA          /boot/efi               vfat    umask=0077,shortname=winnt 0 2\n";
    assert_eq!(rewritten(default), modified);
}

#[test]
fn lines_that_stay() {
    for line in [
        "",
        "   \t ",
        "# /dev/sda1 / xfs defaults 0 0",
        "#",
        "/dev/sda1",
        "/dev/sda1 /",
        "/dev/sda1 / xfs",
        "/dev/sda1 /home xfs defaults 0 0",
        "/dev/sda1 / xfs ro",
        "/dev/sda1 / xfs defaults,ro,noatime 0 0",
        "/dev/sda1 / xfs ro,rw 0 0",
    ] {
        assert_eq!(edit_fstab_line(line), None, "{line}");
    }
}

#[test]
fn lines_that_change() {
    let stamp = "# Updated by bootc-fstab-edit.service\n";
    for (line, entry) in [
        ("/dev/sda1 / xfs defaults", "/dev/sda1 / xfs defaults,ro\n"),
        ("  a\t/\u{c}xfs  rw \t0 0 ", "a / xfs rw,ro 0 0\n"),
        ("a / xfs rootflags=ro,errors 1 2 3", "a / xfs rootflags=ro,errors,ro 1 2 3\n"),
        ("a / xfs , 0 0", "a / xfs ,,ro 0 0\n"),
        (" #a / xfs rw", "#a / xfs rw,ro\n"),
        ("l\u{e4}bel / xfs rw", "l\u{e4}bel / xfs rw,ro\n"),
        // A no-break space is not ASCII whitespace.
        ("a\u{a0}b / xfs rw", "a\u{a0}b / xfs rw,ro\n"),
        // Neither is a vertical tab.
        ("a\u{b}b / xfs rw", "a\u{b}b / xfs rw,ro\n"),
    ] {
        let expected = format!("{stamp}{entry}");
        assert_eq!(edit_fstab_line(line), Some(expected), "{line}");
    }
}

#[test]
fn line_ends() {
    assert_eq!(fixup_etc_fstab(""), "");
    assert_eq!(fixup_etc_fstab("\n"), "\n");
    assert_eq!(fixup_etc_fstab("a"), "a\n");
    assert_eq!(fixup_etc_fstab("a\n\nb"), "a\n\nb\n");
    assert_eq!(fixup_etc_fstab("a\r\nb\r\n"), "a\nb\n");
    // Only a carriage return before a line feed belongs to the line's end.
    assert_eq!(fixup_etc_fstab("a\rb\n"), "a\rb\n");
    assert_eq!(fixup_etc_fstab("a\r"), "a\r\n");
    assert_eq!(fixup_etc_fstab("a\r\r\n"), "a\r\n");
}

#[test]
fn nothing_is_left_to_edit() {
    let content = "a / xfs rw 0 0\r\nb / ext4 defaults 0 0\nc /home xfs rw 0 0\n";
    let once = fixup_etc_fstab(content);
    for line in once.lines() {
        assert_eq!(edit_fstab_line(line), None);
    }
    assert_eq!(fixup_etc_fstab(&once), once);
    // A stray carriage return is lost by a second rewrite.
    let stray = fixup_etc_fstab("a\r\r\n");
    assert_ne!(fixup_etc_fstab(&stray), stray);
}

#[test]
fn parts_are_rewritten_alone() {
    let a = "# by hand\nUUID=1 / xfs defaults 0 0\r\n";
    let b = "UUID=2 /boot ext4 defaults 1 2\n/dev/sda1 / ext4 rw 0 0";
    for (a, b) in [(a, b), ("", b), (a, ""), (a, a)] {
        let whole = fixup_etc_fstab(&format!("{a}{b}"));
        assert_eq!(whole, format!("{}{}", fixup_etc_fstab(a), fixup_etc_fstab(b)));
    }
}
