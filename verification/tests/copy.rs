use gpgpu::{pad_upload, padded_size};

#[test]
fn sizes_are_rounded_up_to_whole_words() {
    assert_eq!(padded_size(0), Some(0));
    assert_eq!(padded_size(1), Some(4));
    assert_eq!(padded_size(3), Some(4));
    assert_eq!(padded_size(4), Some(4));
    assert_eq!(padded_size(5), Some(8));
    assert_eq!(padded_size(1022), Some(1024));
    assert_eq!(padded_size(usize::MAX - 3), Some(usize::MAX - 3));
    assert_eq!(padded_size(usize::MAX - 2), None);
    assert_eq!(padded_size(usize::MAX), None);
}

#[test]
fn an_upload_of_whole_words_is_taken_as_it_is() {
    assert_eq!(pad_upload(vec![1, 2, 3, 4], 0, 16), Some(vec![1, 2, 3, 4]));
    assert_eq!(pad_upload(vec![1, 2, 3, 4, 5, 6, 7, 8], 8, 16), Some(vec![1, 2, 3, 4, 5, 6, 7, 8]));
    assert_eq!(pad_upload(vec![], 4, 16), Some(vec![]));
    assert_eq!(pad_upload(vec![1, 2, 3, 4], 4, 3), Some(vec![1, 2, 3, 4]));
}

#[test]
fn an_upload_that_ends_with_the_buffer_is_filled_up_with_zeros() {
    assert_eq!(pad_upload(vec![1, 2, 3], 4, 7), Some(vec![1, 2, 3, 0]));
    assert_eq!(pad_upload(vec![9], 0, 1), Some(vec![9, 0, 0, 0]));
    assert_eq!(pad_upload(vec![1, 2, 3, 4, 5, 6], 8, 14), Some(vec![1, 2, 3, 4, 5, 6, 0, 0]));
}

#[test]
fn an_upload_that_begins_or_ends_inside_a_word_cannot_be_done() {
    assert_eq!(pad_upload(vec![1, 2, 3, 4], 1, 16), None);
    assert_eq!(pad_upload(vec![1, 2, 3], 2, 5), None);
    assert_eq!(pad_upload(vec![], 3, 16), None);
    assert_eq!(pad_upload(vec![1, 2, 3], 4, 8), None);
    assert_eq!(pad_upload(vec![1, 2, 3], 4, 6), None);
    assert_eq!(pad_upload(vec![1], 0, 0), None);
}
