use rs_pedalboard::vst3::handler::create_component_handler;
use rs_pedalboard::vst3::host::{create_host_application, host_name_utf16, HOST_NAME, STRING128_LEN};
use rs_pedalboard::vst3::param_changes::{ParamValueQueue, ParameterChanges};
use rs_pedalboard::vst3::stream::{create_memory_stream, IB_SEEK_CUR, IB_SEEK_END, IB_SEEK_SET};
use rs_pedalboard::vst3::strings::{read_c_string, read_string128};
use rs_pedalboard::vst3::{K_INVALID_ARGUMENT, K_NOT_IMPLEMENTED, K_RESULT_OK};

#[test]
fn what_is_written_to_a_stream_reads_back() {
    let mut stream = create_memory_stream();
    assert_eq!(stream.tell(), 0);
    assert_eq!(stream.write(&[1, 2, 3, 4]), (K_RESULT_OK, 4));
    assert_eq!(stream.tell(), 4);
    assert_eq!(stream.seek(0, IB_SEEK_SET), (K_RESULT_OK, Some(0)));
    assert_eq!(stream.read(4), (K_RESULT_OK, vec![1, 2, 3, 4]));

    // A read past the end stops at the end, and a negative read reads nothing
    assert_eq!(stream.seek(2, IB_SEEK_SET), (K_RESULT_OK, Some(2)));
    assert_eq!(stream.read(10), (K_RESULT_OK, vec![3, 4]));
    assert_eq!(stream.tell(), 4);
    assert_eq!(stream.read(-1), (K_RESULT_OK, vec![]));
    assert_eq!(stream.read(1), (K_RESULT_OK, vec![]));
}

#[test]
fn writing_past_the_end_fills_the_gap_with_zeros() {
    let mut stream = create_memory_stream();
    assert_eq!(stream.seek(3, IB_SEEK_SET), (K_RESULT_OK, Some(3)));
    assert_eq!(stream.write(&[9]), (K_RESULT_OK, 1));
    assert_eq!(stream.seek(0, IB_SEEK_SET), (K_RESULT_OK, Some(0)));
    assert_eq!(stream.read(8), (K_RESULT_OK, vec![0, 0, 0, 9]));

    // Overwriting in the middle keeps the bytes around it
    assert_eq!(stream.seek(1, IB_SEEK_SET), (K_RESULT_OK, Some(1)));
    assert_eq!(stream.write(&[7, 8]), (K_RESULT_OK, 2));
    assert_eq!(stream.seek(0, IB_SEEK_SET), (K_RESULT_OK, Some(0)));
    assert_eq!(stream.read(8), (K_RESULT_OK, vec![0, 7, 8, 9]));
}

#[test]
fn a_seek_before_the_start_or_in_an_unknown_mode_is_refused() {
    let mut stream = create_memory_stream();
    stream.write(&[1, 2, 3, 4, 5]);
    assert_eq!(stream.seek(-2, IB_SEEK_END), (K_RESULT_OK, Some(3)));
    assert_eq!(stream.seek(1, IB_SEEK_CUR), (K_RESULT_OK, Some(4)));
    assert_eq!(stream.seek(-5, IB_SEEK_CUR), (K_INVALID_ARGUMENT, None));
    assert_eq!(stream.tell(), 4);
    assert_eq!(stream.seek(0, 7), (K_INVALID_ARGUMENT, None));
    assert_eq!(stream.seek(-1, IB_SEEK_SET), (K_INVALID_ARGUMENT, None));
    assert_eq!(stream.tell(), 4);
    assert_eq!(stream.read(1), (K_RESULT_OK, vec![5]));
}

#[test]
fn changes_are_queued_per_parameter() {
    let mut changes: ParameterChanges<f64> = ParameterChanges::new();
    assert_eq!(changes.get_parameter_count(), 0);
    changes.add_change(7, 0, 0.25);
    changes.add_change(3, 16, 1.0);
    changes.add_change(7, 32, 0.5);
    assert_eq!(changes.get_parameter_count(), 2);

    let first = changes.get_parameter_data(0).unwrap();
    assert_eq!(first.get_parameter_id(), 7);
    assert_eq!(first.get_point_count(), 2);
    assert_eq!(first.get_point(0), (K_RESULT_OK, Some((0, 0.25))));
    assert_eq!(first.get_point(1), (K_RESULT_OK, Some((32, 0.5))));
    assert_eq!(first.get_point(2), (K_INVALID_ARGUMENT, None));
    assert_eq!(first.get_point(-1), (K_INVALID_ARGUMENT, None));

    let second = changes.get_parameter_data(1).unwrap();
    assert_eq!(second.get_parameter_id(), 3);
    assert_eq!(second.get_point(0), (K_RESULT_OK, Some((16, 1.0))));

    assert!(changes.get_parameter_data(2).is_none());
    assert!(changes.get_parameter_data(-1).is_none());

    // Asking for the queue of a parameter gives the one it already has, or a new one
    assert_eq!(changes.add_parameter_data(3), 1);
    assert_eq!(changes.add_parameter_data(11), 2);
    assert_eq!(changes.get_parameter_count(), 3);
    assert_eq!(changes.get_parameter_data(2).unwrap().get_point_count(), 0);

    let defaults: ParameterChanges<f64> = ParameterChanges::default();
    assert_eq!(defaults.get_parameter_count(), 0);
}

#[test]
fn a_queue_index_is_found_or_made() {
    let mut changes: ParameterChanges<f64> = ParameterChanges::new();
    assert_eq!(changes.add_parameter_data(4), 0);
    assert_eq!(changes.add_parameter_data(5), 1);
    assert_eq!(changes.add_parameter_data(4), 0);
    assert_eq!(changes.get_parameter_count(), 2);
    assert_eq!(changes.get_parameter_data(0).unwrap().get_parameter_id(), 4);
    assert_eq!(changes.get_parameter_data(1).unwrap().get_parameter_id(), 5);
    assert_eq!(changes.get_parameter_data(1).unwrap().get_point_count(), 0);

    let mut queue: ParamValueQueue<f64> = ParamValueQueue::new(9);
    assert_eq!(queue.add_point(3, 0.75), (K_RESULT_OK, 0));
    assert_eq!(queue.add_point(5, 0.5), (K_RESULT_OK, 1));
    assert_eq!(queue.get_point_count(), 2);
}

#[test]
fn the_host_writes_its_name_into_a_plugin_string() {
    let host = create_host_application();
    let mut name = vec![0xffffu16; STRING128_LEN];
    assert_eq!(host.get_name(&mut name), K_RESULT_OK);
    let expected: Vec<u16> = HOST_NAME.encode_utf16().collect();
    assert_eq!(&name[..expected.len()], &expected[..]);
    assert_eq!(name[expected.len()], 0);
    assert_eq!(name[expected.len() + 1], 0xffff);
    assert_eq!(read_string128(&name.clone().try_into().unwrap()), HOST_NAME);

    // A string too short for the name holds as much of it as fits, without the terminator
    let mut short = vec![0xffffu16; 4];
    assert_eq!(host.get_name(&mut short), K_RESULT_OK);
    assert_eq!(short, expected[..4].to_vec());

    assert_eq!(host.create_instance(), K_NOT_IMPLEMENTED);
    let mut units = host_name_utf16();
    assert_eq!(units.pop(), Some(0));
    assert_eq!(units, expected);
}

#[test]
fn plugin_strings_end_at_their_first_zero() {
    let bytes: Vec<i8> = "Audio Module Class\0junk".bytes().map(|b| b as i8).collect();
    assert_eq!(read_c_string(&bytes), "Audio Module Class");

    let unterminated: Vec<i8> = "Reverb".bytes().map(|b| b as i8).collect();
    assert_eq!(read_c_string(&unterminated), "Reverb");
    assert_eq!(read_c_string(&[]), "");

    // Bytes that are not UTF-8 are replaced rather than refused
    let invalid: Vec<i8> = vec![b'a' as i8, -1, b'b' as i8, 0];
    assert_eq!(read_c_string(&invalid), "a\u{fffd}b");

    let mut units = [0u16; 128];
    for (i, u) in "dB".encode_utf16().enumerate() {
        units[i] = u;
    }
    units[5] = b'x' as u16;
    assert_eq!(read_string128(&units), "dB");

    let full = [b'a' as u16; 128];
    assert_eq!(read_string128(&full), "a".repeat(128));

    // A surrogate pair is one character; an unpaired surrogate is replaced and the unit after it
    // is read afresh
    let mut units = [0u16; 128];
    units[..6].copy_from_slice(&[0xD834, 0xDD1E, b'a' as u16, 0xD834, b'b' as u16, 0xDD1E]);
    assert_eq!(read_string128(&units), "\u{1D11E}a\u{FFFD}b\u{FFFD}");
}

#[test]
fn the_component_handler_acknowledges_every_edit() {
    let handler = create_component_handler();
    assert_eq!(handler.begin_edit(1), K_RESULT_OK);
    assert_eq!(handler.perform_edit(1, 0), K_RESULT_OK);
    assert_eq!(handler.end_edit(1), K_RESULT_OK);
    assert_eq!(handler.restart_component(0), K_RESULT_OK);
}
