use diskprobe::devices::{default_exclusions, disk_devices_in, list_disk_devices};

fn strings(items: &[&str]) -> Vec<String> {
    items.iter().map(|s| s.to_string()).collect()
}

#[test]
fn standard_exclusions_are_volumes_and_floppies() {
    assert_eq!(default_exclusions(), strings(&["/dev/zd", "/dev/fd"]));
}

#[test]
fn only_lines_of_type_disk_are_kept() {
    let listing = "sda  disk\nsda1 part\nsr0  rom\nloop0 loop\nnvme0n1 disk\n";
    assert_eq!(
        disk_devices_in(listing, &default_exclusions()),
        strings(&["/dev/sda", "/dev/nvme0n1"])
    );
}

#[test]
fn excluded_prefixes_are_left_out() {
    let listing = "zd0 disk\nsda disk\nfd0 disk\nzd16 disk\nsdb disk";
    assert_eq!(
        disk_devices_in(listing, &default_exclusions()),
        strings(&["/dev/sda", "/dev/sdb"])
    );
}

#[test]
fn exclusions_can_be_replaced() {
    let listing = "zd0 disk\nsda disk\nsdb disk\n";
    assert_eq!(
        disk_devices_in(listing, &Vec::new()),
        strings(&["/dev/zd0", "/dev/sda", "/dev/sdb"])
    );
    assert_eq!(disk_devices_in(listing, &strings(&["/dev/sd"])), strings(&["/dev/zd0"]));
    assert_eq!(disk_devices_in(listing, &strings(&[""])), Vec::<String>::new());
    assert_eq!(
        disk_devices_in(listing, &strings(&["/dev/sdaa", "sda"])),
        strings(&["/dev/zd0", "/dev/sda", "/dev/sdb"])
    );
}

#[test]
fn columns_are_separated_by_any_whitespace() {
    let listing = "  sda\t disk  \r\n\n   \nsdb   disk extra columns\nsdc\n disk\ndisk\n";
    assert_eq!(
        disk_devices_in(listing, &default_exclusions()),
        strings(&["/dev/sda", "/dev/sdb"])
    );
}

#[test]
fn type_is_compared_exactly() {
    let listing = "sda Disk\nsdb disks\nsdc dis\nsdd disk";
    assert_eq!(disk_devices_in(listing, &default_exclusions()), strings(&["/dev/sdd"]));
}

#[test]
fn empty_listing_names_no_device() {
    assert_eq!(disk_devices_in("", &default_exclusions()), Vec::<String>::new());
    assert_eq!(list_disk_devices(b"", &default_exclusions()), Vec::<String>::new());
}

#[test]
fn raw_output_is_decoded_before_it_is_read() {
    let output = b"sda disk\nsd\xffb disk\nzd0 disk\n";
    assert_eq!(
        list_disk_devices(output, &default_exclusions()),
        strings(&["/dev/sda", "/dev/sd\u{fffd}b"])
    );
}
