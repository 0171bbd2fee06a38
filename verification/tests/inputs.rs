use z6m_prover::inputs::{
    block_number_from_filename, block_number_of_input, bundle_path_of, choose_guest_bin,
    choose_input_path, guest_base, legacy_input_path_of, resolve_guest_bin, resolve_input_path,
    InputPathError, DEFAULT_GUEST_BIN,
};

#[test]
fn block_numbers_are_found_in_file_names() {
    assert_eq!(block_number_from_filename("unifiedBlockAndStateRlp24522000.bin"), 24522000);
    assert_eq!(block_number_from_filename("a/b/flatWitnessBundle7.mfbd"), 7);
    assert_eq!(block_number_from_filename("block12x.bin"), 0);
    assert_eq!(block_number_from_filename("12x34.bin"), 34);
    assert_eq!(block_number_from_filename("0042"), 42);
    assert_eq!(block_number_from_filename(""), 0);
    assert_eq!(block_number_from_filename(".."), 0);
    assert_eq!(block_number_from_filename("b18446744073709551615.bin"), u64::MAX);
    assert_eq!(block_number_from_filename("b18446744073709551616.bin"), 0);
    assert_eq!(block_number_from_filename("b99999999999999999999999.bin"), 0);
}

#[test]
fn paths_of_inputs_tell_their_blocks() {
    for block in [1u64, 9, 10, 24522000, u64::MAX] {
        for dir in ["temp", "", "/data/", "a.b/c"] {
            assert_eq!(block_number_from_filename(&bundle_path_of(dir, block)), block);
            assert_eq!(block_number_from_filename(&legacy_input_path_of(dir, block)), block);
        }
    }
}

#[test]
fn inputs_have_a_present_and_an_older_layout() {
    assert_eq!(
        bundle_path_of("temp", 24522000),
        "temp/blocks/24522000/flatWitnessBundle24522000.mfbd"
    );
    assert_eq!(
        legacy_input_path_of("temp", 24522000),
        "temp/blocks/24522000/unifiedBlockAndStateRlp24522000.bin"
    );
    assert_eq!(
        choose_input_path(5, None, "d", true),
        Ok(String::from("d/blocks/5/flatWitnessBundle5.mfbd"))
    );
    assert_eq!(
        choose_input_path(5, None, "d", false),
        Ok(String::from("d/blocks/5/unifiedBlockAndStateRlp5.bin"))
    );
}

#[test]
fn a_named_file_is_taken_as_it_is() {
    assert_eq!(
        resolve_input_path(0, Some(String::from("x.bin")), "d"),
        Ok(String::from("x.bin"))
    );
    assert_eq!(
        choose_input_path(3, Some(String::from("x.bin")), "d", true),
        Ok(String::from("x.bin"))
    );
}

#[test]
fn an_input_needs_a_file_or_a_block() {
    assert_eq!(resolve_input_path(0, None, "d"), Err(InputPathError::NothingNamed));
    assert_eq!(
        InputPathError::NothingNamed.text(),
        "either --file-name or a nonzero --block-number is required"
    );
}

#[test]
fn a_missing_bundle_leads_to_the_older_layout() {
    assert_eq!(
        resolve_input_path(5, None, "/no/such/directory"),
        Ok(String::from("/no/such/directory/blocks/5/unifiedBlockAndStateRlp5.bin"))
    );
}

#[test]
fn guests_are_named_with_or_without_extension() {
    assert_eq!(guest_base(Some("build/guest.bin")), "build/guest");
    assert_eq!(guest_base(Some("build/guest")), "build/guest");
    assert_eq!(guest_base(Some("build/guest.elf")), "build/guest.elf");
    assert_eq!(guest_base(None), DEFAULT_GUEST_BIN);
    assert_eq!(choose_guest_bin(Some("g.bin"), true).unwrap(), "g");
}

#[test]
fn guests_that_are_not_there_are_reported() {
    let named = resolve_guest_bin(Some("/no/such/guest.bin")).unwrap_err();
    assert_eq!(named.text(), "guest binary not found at /no/such/guest.bin");
    let by_default = choose_guest_bin(None, false).unwrap_err();
    assert_eq!(
        by_default.text(),
        "guest binary not found at default path 'prover/guest_airbender/build/z6m_guest.bin'; \
         pass --guest-bin or run from the project root"
    );
}

#[test]
fn the_named_block_comes_before_the_name_of_the_input() {
    assert_eq!(block_number_of_input(3, "x7.bin"), 3);
    assert_eq!(block_number_of_input(0, "x7.bin"), 7);
}
