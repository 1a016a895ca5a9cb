use dupscan::human::human;

#[test]
fn human_counts_bytes_up_to_ten_kib() {
    assert_eq!(human(0), "0 b");
    assert_eq!(human(7), "7 b");
    assert_eq!(human(100), "100 b");
    assert_eq!(human(10240), "10240 b");
}

#[test]
fn human_counts_kib_up_to_ten_mib() {
    assert_eq!(human(10241), "10 kb");
    assert_eq!(human(20479), "19 kb");
    assert_eq!(human(10485760), "10240 kb");
}

#[test]
fn human_counts_mib_up_to_ten_gib() {
    assert_eq!(human(10485761), "10 mb");
    assert_eq!(human(10737418240), "10240 mb");
}

#[test]
fn human_counts_gib_above() {
    assert_eq!(human(10737418241), "10 gb");
    assert_eq!(human(u64::MAX), "17179869183 gb");
}

#[test]
fn human_writes_the_number_not_its_argument() {
    assert_eq!(human(1234567), "1205 kb");
    assert_ne!(human(1234567), "1234567 kb");
}
