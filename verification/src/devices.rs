//! The device lister: which disks a block-device listing names.
//!
//! The listing has one line per device, with the device's name in the first
//! column and its type in the second, and no header.
use crate::text::{
    char_views, chars_of, decode_lossy, has_prefix, lines, lossy_text, same_chars, split_lines,
    split_tokens, starts_with, string_of, string_views, tokens,
};
use vstd::prelude::*;

verus! {

/// The path prefixes of device nodes that are no physical disks: ZFS volumes
/// and floppy drives.
pub open spec fn standard_exclusions() -> Seq<Seq<char>> {
    seq!["/dev/zd"@, "/dev/fd"@]
}

/// The path of the device node of the device called `name`.
pub open spec fn device_path(name: Seq<char>) -> Seq<char> {
    "/dev/"@ + name
}

/// Whether `path` begins with one of the excluded prefixes.
pub open spec fn is_excluded(path: Seq<char>, exclusions: Seq<Seq<char>>) -> bool {
    exists|i: int| 0 <= i < exclusions.len() && has_prefix(path, #[trigger] exclusions[i])
}

/// The disk that a line of the listing names: the path of the device in its
/// first column, where its second column says "disk" and the path is not
/// excluded.
pub open spec fn listed_device(line: Seq<char>, exclusions: Seq<Seq<char>>) -> Option<Seq<char>> {
    let columns = tokens(line);
    if columns.len() >= 2 && columns[1] == "disk"@ && !is_excluded(
        device_path(columns[0]),
        exclusions,
    ) {
        Some(device_path(columns[0]))
    } else {
        None
    }
}

/// The present candidates, in order.
pub open spec fn present<T>(candidates: Seq<Option<T>>) -> Seq<T>
    decreases candidates.len(),
{
    if candidates.len() == 0 {
        Seq::empty()
    } else {
        match candidates.last() {
            Some(value) => present(candidates.drop_last()).push(value),
            None => present(candidates.drop_last()),
        }
    }
}

/// The disks that a listing names, in the order of its lines.
pub open spec fn listed_devices(listing: Seq<char>, exclusions: Seq<Seq<char>>) -> Seq<Seq<char>> {
    present(lines(listing).map_values(|line: Seq<char>| listed_device(line, exclusions)))
}

/// The prefixes excluded by default.
pub fn default_exclusions() -> (r: Vec<String>)
    ensures
        string_views(r@) == standard_exclusions(),
{
    let mut exclusions: Vec<String> = Vec::new();
    exclusions.push("/dev/zd".to_owned());
    exclusions.push("/dev/fd".to_owned());
    assert(string_views(exclusions@) =~= standard_exclusions());
    exclusions
}

fn path_of(name: &Vec<char>) -> (r: Vec<char>)
    ensures
        r@ == device_path(name@),
{
    let mut path = chars_of("/dev/");
    let ghost prefix = path@;
    let mut i: usize = 0;
    while i < name.len()
        invariant
            i <= name.len(),
            path@ == prefix + name@.take(i as int),
        decreases name.len() - i,
    {
        path.push(name[i]);
        i += 1;
    }
    proof {
        assert(name@.take(name.len() as int) =~= name@);
    }
    path
}

fn excluded(path: &Vec<char>, exclusions: &Vec<Vec<char>>) -> (r: bool)
    ensures
        r == is_excluded(path@, char_views(exclusions@)),
{
    let mut i: usize = 0;
    while i < exclusions.len()
        invariant
            i <= exclusions.len(),
            forall|k: int| 0 <= k < i ==> !has_prefix(path@, #[trigger] char_views(exclusions@)[k]),
        decreases exclusions.len() - i,
    {
        if starts_with(path, &exclusions[i]) {
            assert(has_prefix(path@, char_views(exclusions@)[i as int]));
            return true;
        }
        i += 1;
    }
    false
}

fn device_in_line(line: &Vec<char>, kind: &Vec<char>, exclusions: &Vec<Vec<char>>) -> (r: Option<
    Vec<char>,
>)
    requires
        kind@ == "disk"@,
    ensures
        match listed_device(line@, char_views(exclusions@)) {
            Some(path) => r is Some && r->0@ == path,
            None => r is None,
        },
{
    let columns = split_tokens(line);
    if columns.len() < 2 {
        return None;
    }
    assert(char_views(columns@)[0] == columns@[0]@);
    assert(char_views(columns@)[1] == columns@[1]@);
    if !same_chars(&columns[1], kind) {
        return None;
    }
    let path = path_of(&columns[0]);
    if excluded(&path, exclusions) {
        None
    } else {
        Some(path)
    }
}

/// The disks that a block-device listing names, in the order of its lines.
pub fn disk_devices_in(listing: &str, exclusions: &Vec<String>) -> (r: Vec<String>)
    ensures
        string_views(r@) == listed_devices(listing@, string_views(exclusions@)),
{
    let kind = chars_of("disk");
    let mut prefixes: Vec<Vec<char>> = Vec::new();
    let mut j: usize = 0;
    while j < exclusions.len()
        invariant
            j <= exclusions.len(),
            prefixes.len() == j,
            forall|k: int| 0 <= k < j ==> (#[trigger] prefixes@[k])@ == exclusions@[k]@,
        decreases exclusions.len() - j,
    {
        prefixes.push(chars_of(exclusions[j].as_str()));
        j += 1;
    }
    assert(char_views(prefixes@) =~= string_views(exclusions@));
    let all = split_lines(&chars_of(listing));
    let ghost candidates = lines(listing@).map_values(
        |line: Seq<char>| listed_device(line, string_views(exclusions@)),
    );
    let mut devices: Vec<String> = Vec::new();
    let mut i: usize = 0;
    while i < all.len()
        invariant
            i <= all.len(),
            kind@ == "disk"@,
            char_views(prefixes@) == string_views(exclusions@),
            char_views(all@) == lines(listing@),
            candidates == lines(listing@).map_values(
                |line: Seq<char>| listed_device(line, string_views(exclusions@)),
            ),
            string_views(devices@) == present(candidates.take(i as int)),
        decreases all.len() - i,
    {
        let ghost before = string_views(devices@);
        proof {
            assert(char_views(all@)[i as int] == all@[i as int]@);
            assert(candidates.take(i + 1).drop_last() =~= candidates.take(i as int));
            assert(candidates.take(i + 1).last() == listed_device(
                all@[i as int]@,
                string_views(exclusions@),
            ));
        }
        match device_in_line(&all[i], &kind, &prefixes) {
            Some(path) => {
                devices.push(string_of(&path));
                proof {
                    assert(string_views(devices@) =~= before.push(path@));
                }
            },
            None => {},
        }
        i += 1;
    }
    proof {
        assert(candidates.take(all.len() as int) =~= candidates);
    }
    devices
}

/// The disks that the raw output of the block-device listing utility names.
pub fn list_disk_devices(output: &[u8], exclusions: &Vec<String>) -> (r: Vec<String>)
    ensures
        string_views(r@) == listed_devices(lossy_text(output@), string_views(exclusions@)),
{
    let listing = decode_lossy(output);
    disk_devices_in(listing.as_str(), exclusions)
}

/// Every present value comes from a candidate.
pub proof fn lemma_present_from_candidates<T>(candidates: Seq<Option<T>>)
    ensures
        forall|k: int|
            0 <= k < present(candidates).len() ==> exists|i: int|
                0 <= i < candidates.len() && candidates[i] == Some(
                    #[trigger] present(candidates)[k],
                ),
    decreases candidates.len(),
{
    if candidates.len() > 0 {
        let before = candidates.drop_last();
        lemma_present_from_candidates(before);
        assert forall|k: int| 0 <= k < present(candidates).len() implies exists|i: int|
            0 <= i < candidates.len() && candidates[i] == Some(
                #[trigger] present(candidates)[k],
            ) by {
            if k < present(before).len() {
                assert(present(candidates)[k] == present(before)[k]);
                let i = choose|i: int|
                    0 <= i < before.len() && before[i] == Some(present(before)[k]);
                assert(candidates[i] == before[i]);
            } else {
                assert(candidates[candidates.len() - 1] == Some(present(candidates)[k]));
            }
        }
    }
}

/// Every device that a listing names is the device node of a name in the
/// first column of a line of type "disk", and begins with none of the
/// excluded prefixes.
pub proof fn listed_devices_are_disks(listing: Seq<char>, exclusions: Seq<Seq<char>>)
    ensures
        forall|k: int|
            0 <= k < listed_devices(listing, exclusions).len() ==> {
                let device = #[trigger] listed_devices(listing, exclusions)[k];
                &&& has_prefix(device, "/dev/"@)
                &&& !is_excluded(device, exclusions)
                &&& exists|i: int|
                    0 <= i < lines(listing).len() && listed_device(lines(listing)[i], exclusions)
                        == Some(device)
            },
{
    let candidates = lines(listing).map_values(|line: Seq<char>| listed_device(line, exclusions));
    lemma_present_from_candidates(candidates);
    assert forall|k: int| 0 <= k < listed_devices(listing, exclusions).len() implies {
        let device = #[trigger] listed_devices(listing, exclusions)[k];
        &&& has_prefix(device, "/dev/"@)
        &&& !is_excluded(device, exclusions)
        &&& exists|i: int|
            0 <= i < lines(listing).len() && listed_device(lines(listing)[i], exclusions) == Some(
                device,
            )
    } by {
        let device = listed_devices(listing, exclusions)[k];
        let i = choose|i: int| 0 <= i < candidates.len() && candidates[i] == Some(device);
        let name = tokens(lines(listing)[i])[0];
        assert(candidates[i] == listed_device(lines(listing)[i], exclusions));
        assert(device == device_path(name));
        assert(device.take("/dev/"@.len() as int) =~= "/dev/"@);
    }
}

} // verus!
