//! The local worktree must stay local: the mount table decides.

use vstd::prelude::*;
use vstd::utf8::encode_utf8;

use crate::error::{BusyNasError, ErrorView, Result};
use crate::order::string_eq;
use crate::pathname::{path_starts_with, starts_with};
use crate::process::{lossy_text, utf8_lossy};
use crate::text::{chars_of, fields, fields_in, find_separator, find_separator_from, lines, lines_of, owned, push_str, strs};

verus! {

pub open spec fn is_digit_byte(b: u8) -> bool {
    48 <= b <= 57
}

pub open spec fn is_octal_byte(b: u8) -> bool {
    48 <= b <= 55
}

/// `u8::from_str_radix` of three octal digits, when the value fits in a byte.
pub open spec fn octal_value(b: Seq<u8>) -> Option<u8> {
    if is_octal_byte(b[0]) && is_octal_byte(b[1]) && is_octal_byte(b[2]) {
        let v = (b[0] - 48) * 64 + (b[1] - 48) * 8 + (b[2] - 48);
        if v <= 255 {
            Some(v as u8)
        } else {
            None
        }
    } else {
        None
    }
}

/// The mount table's escaping undone: `\` followed by three digits that read as
/// an octal byte stands for that byte; everything else stands for itself.
pub open spec fn unescape_bytes(b: Seq<u8>) -> Seq<u8>
    decreases b.len(),
{
    if b.len() == 0 {
        Seq::empty()
    } else if b[0] == 92 && 3 < b.len() && is_digit_byte(b[1]) && is_digit_byte(b[2])
        && is_digit_byte(b[3]) && octal_value(b.subrange(1, 4)) is Some {
        seq![octal_value(b.subrange(1, 4))->0] + unescape_bytes(b.skip(4))
    } else {
        seq![b[0]] + unescape_bytes(b.skip(1))
    }
}

/// The path that a mount table field names.
pub open spec fn mount_path_text(raw: Seq<char>) -> Seq<char> {
    lossy_text(unescape_bytes(encode_utf8(raw)))
}

/// Undoes the octal escapes of a mount table field (`\040` is a space).
pub fn unescape_mount_path(value: &str) -> (out: String)
    ensures
        out@ == mount_path_text(value@),
{
    let bytes = value.as_bytes();
    let n = bytes.len();
    let mut out: Vec<u8> = Vec::new();
    let mut index: usize = 0;
    assert(bytes@.skip(0) =~= bytes@);
    while index < n
        invariant
            index <= n == bytes@.len(),
            bytes@ == encode_utf8(value@),
            out@ + unescape_bytes(bytes@.skip(index as int)) == unescape_bytes(bytes@),
        decreases n - index,
    {
        let ghost rest = bytes@.skip(index as int);
        if bytes[index] == 92 && n - index > 3 && 48 <= bytes[index + 1] && bytes[index + 1] <= 57
            && 48 <= bytes[index + 2] && bytes[index + 2] <= 57 && 48 <= bytes[index + 3]
            && bytes[index + 3] <= 57 {
            let b1 = bytes[index + 1];
            let b2 = bytes[index + 2];
            let b3 = bytes[index + 3];
            assert(rest.subrange(1, 4) =~= seq![b1, b2, b3]);
            if b1 <= 55 && b2 <= 55 && b3 <= 55 {
                let v: u32 = ((b1 - 48) as u32) * 64 + ((b2 - 48) as u32) * 8 + ((b3 - 48) as u32);
                if v <= 255 {
                    let ghost before = out@;
                    out.push(v as u8);
                    proof {
                        assert(rest.skip(4) =~= bytes@.skip(index + 4));
                        assert(out@ + unescape_bytes(bytes@.skip(index + 4)) =~= before
                            + unescape_bytes(rest));
                    }
                    index = index + 4;
                    continue;
                }
            }
        }
        let ghost before = out@;
        out.push(bytes[index]);
        proof {
            assert(rest.skip(1) =~= bytes@.skip(index + 1));
            assert(out@ + unescape_bytes(bytes@.skip(index + 1)) =~= before + unescape_bytes(rest));
        }
        index = index + 1;
    }
    assert(out@ =~= unescape_bytes(bytes@));
    utf8_lossy(out.as_slice())
}

/// One mount table line: the (escaped) mount point and the file system type, or
/// nothing when the line lacks the ` - ` separator or the mount point field.
pub open spec fn mount_entry(line: Seq<char>) -> Option<(Seq<char>, Seq<char>)> {
    match find_separator_from(line, 0) {
        None => None,
        Some(k) => {
            let before = fields(line.take(k));
            let after = fields(line.skip(k + 3));
            if before.len() < 5 {
                None
            } else {
                Some(
                    (
                        before[4],
                        if after.len() > 0 {
                            after[0]
                        } else {
                            Seq::empty()
                        },
                    ),
                )
            }
        },
    }
}

/// Whether a mount point of `length` bytes replaces the best one so far.
pub open spec fn beats(length: nat, prev: Option<(nat, Seq<char>)>) -> bool {
    match prev {
        None => true,
        Some((best, _)) => length > best,
    }
}

/// Over the first lines of the table in order: the byte length and file system of
/// the longest mount point that `path` lies under (the first of equal lengths).
pub open spec fn best_mount(path: Seq<char>, table: Seq<Seq<char>>) -> Option<(nat, Seq<char>)>
    decreases table.len(),
{
    if table.len() == 0 {
        None
    } else {
        let prev = best_mount(path, table.drop_last());
        match mount_entry(table.last()) {
            None => prev,
            Some((raw, fs)) => {
                let mount_point = mount_path_text(raw);
                let length = (encode_utf8(mount_point).len() as usize) as nat;
                if path_starts_with(path, mount_point) && beats(length, prev) {
                    Some((length, fs))
                } else {
                    prev
                }
            },
        }
    }
}

/// The file systems that live on another machine.
pub open spec fn is_network_fs(fs: Seq<char>) -> bool {
    fs == "nfs"@ || fs == "nfs4"@ || fs == "cifs"@ || fs == "smb3"@ || fs == "fuse.sshfs"@
}

/// What the Linux mount table says of a workspace at `path`.
pub open spec fn mount_verdict(path: Seq<char>, mountinfo: Seq<char>) -> core::result::Result<(), ErrorView> {
    match best_mount(path, lines(mountinfo)) {
        Some((_, fs)) => if is_network_fs(fs) {
            Err(ErrorView::UnsafeWorkspace(path + " is on a "@ + fs + " mount"@))
        } else {
            Ok(())
        },
        None => Ok(()),
    }
}

fn is_network_file_system(fs: &String) -> (b: bool)
    ensures
        b == is_network_fs(fs@),
{
    string_eq(fs, &owned("nfs")) || string_eq(fs, &owned("nfs4")) || string_eq(fs, &owned("cifs"))
        || string_eq(fs, &owned("smb3")) || string_eq(fs, &owned("fuse.sshfs"))
}

fn parse_mount_entry(line: &String) -> (r: Option<(String, String)>)
    ensures
        r matches Some((m, f)) ==> mount_entry(line@) == Some((m@, f@)),
        r is None ==> mount_entry(line@) is None,
{
    let cs = chars_of(line.as_str());
    match find_separator(&cs) {
        None => None,
        Some(k) => {
            let before = fields_in(&cs, 0, k);
            let after = fields_in(&cs, k + 3, cs.len());
            proof {
                assert(cs@.subrange(0, k as int) =~= line@.take(k as int));
                assert(cs@.subrange(k + 3, cs.len() as int) =~= line@.skip(k + 3));
            }
            if before.len() < 5 {
                None
            } else {
                let fs = if after.len() > 0 {
                    after[0].clone()
                } else {
                    String::new()
                };
                Some((before[4].clone(), fs))
            }
        },
    }
}

/// Refuses a workspace at `path` (canonical) that the Linux mount table
/// (`/proc/self/mountinfo`) places on a network file system: the longest mount
/// point that the path lies under decides.
pub fn reject_linux_network_mount(path: &str, mountinfo: &str) -> (r: Result<()>)
    ensures
        r is Ok <==> mount_verdict(path@, mountinfo@) is Ok,
        r matches Err(e) ==> mount_verdict(path@, mountinfo@) == Err::<(), ErrorView>(e@),
{
    let table = lines_of(mountinfo);
    let mut matched: Option<(usize, String)> = None;
    let mut i: usize = 0;
    while i < table.len()
        invariant
            i <= table.len(),
            strs(table@) == lines(mountinfo@),
            best_mount(path@, strs(table@).take(i as int)) == match matched {
                Some((l, f)) => Some((l as nat, f@)),
                None => None,
            },
        decreases table.len() - i,
    {
        let ghost prefix = strs(table@).take(i + 1);
        proof {
            assert(prefix.drop_last() =~= strs(table@).take(i as int));
            assert(prefix.last() == table@[i as int]@);
        }
        match parse_mount_entry(&table[i]) {
            None => {},
            Some((raw, fs)) => {
                let mount_point = unescape_mount_path(raw.as_str());
                let length = mount_point.as_str().len();
                assert(length as nat == (encode_utf8(mount_path_text(raw@)).len() as usize) as nat);
                if starts_with(path, mount_point.as_str()) {
                    let longer = match &matched {
                        None => true,
                        Some((best, _)) => length > *best,
                    };
                    if longer {
                        matched = Some((length, fs));
                    }
                }
            },
        }
        i = i + 1;
    }
    proof {
        assert(strs(table@).take(table.len() as int) =~= strs(table@));
    }
    match matched {
        Some((_, fs)) => {
            if is_network_file_system(&fs) {
                let mut m = owned(path);
                push_str(&mut m, " is on a ");
                push_str(&mut m, fs.as_str());
                push_str(&mut m, " mount");
                Err(BusyNasError::UnsafeWorkspace(m))
            } else {
                Ok(())
            }
        },
        None => Ok(()),
    }
}


/// `str::to_ascii_lowercase`.
pub open spec fn ascii_lower(s: Seq<char>) -> Seq<char> {
    Seq::new(
        s.len(),
        |i: int|
            if 'A' <= s[i] && s[i] <= 'Z' {
                (((s[i] as u8) + 32) as u8) as char
            } else {
                s[i]
            },
    )
}

/// What macOS's file system type name (from `statfs`) says of a workspace.
pub open spec fn macos_verdict(fs_type: Seq<char>) -> core::result::Result<(), ErrorView> {
    let fs = ascii_lower(fs_type);
    if fs == "nfs"@ || fs == "smbfs"@ || fs == "webdav"@ {
        Err(ErrorView::UnsafeWorkspace("workspace is on a "@ + fs + " mount"@))
    } else {
        Ok(())
    }
}

/// Refuses a workspace whose macOS file system type is a network one.
pub fn reject_macos_network_filesystem(fs_type: &str) -> (r: Result<()>)
    ensures
        r is Ok <==> macos_verdict(fs_type@) is Ok,
        r matches Err(e) ==> macos_verdict(fs_type@) == Err::<(), ErrorView>(e@),
{
    let cs = chars_of(fs_type);
    let mut lower: Vec<char> = Vec::new();
    let mut i: usize = 0;
    while i < cs.len()
        invariant
            i <= cs.len(),
            cs@ == fs_type@,
            lower@ == ascii_lower(fs_type@).take(i as int),
        decreases cs.len() - i,
    {
        let c = cs[i];
        let l = if 'A' <= c && c <= 'Z' {
            let b: u8 = (c as u8) + 32;
            b as char
        } else {
            c
        };
        lower.push(l);
        assert(lower@ =~= ascii_lower(fs_type@).take(i + 1));
        i = i + 1;
    }
    assert(lower@ =~= ascii_lower(fs_type@));
    let fs = crate::text::string_of(&lower);
    if string_eq(&fs, &owned("nfs")) || string_eq(&fs, &owned("smbfs")) || string_eq(
        &fs,
        &owned("webdav"),
    ) {
        let mut m = owned("workspace is on a ");
        push_str(&mut m, fs.as_str());
        push_str(&mut m, " mount");
        Err(BusyNasError::UnsafeWorkspace(m))
    } else {
        Ok(())
    }
}

} // verus!
