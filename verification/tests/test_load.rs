use aviabot::test_load;

#[test]
fn synthetic_speakers_have_ids_in_a_row() {
    assert_eq!(
        test_load::synthetic_client_ids(3, test_load::BASE_CLIENT_ID),
        vec![1000, 1001, 1002]
    );
    assert!(test_load::synthetic_client_ids(0, 1000).is_empty());
    assert!(test_load::synthetic_client_ids(65536, 1000).is_empty());
    assert_eq!(test_load::synthetic_client_ids(65538, 5), vec![5, 6]);
    let last = test_load::synthetic_client_ids(64536, 1000);
    assert_eq!(last.len(), 64536);
    assert_eq!(last[64535], 65535);
}

#[test]
fn synthetic_noise_has_its_seed() {
    let mut lcg = test_load::noise_source();
    assert_eq!(lcg.state, 123456789);
    assert_eq!(
        lcg.next_u32(),
        123456789u32.wrapping_mul(1664525).wrapping_add(1013904223)
    );
}
