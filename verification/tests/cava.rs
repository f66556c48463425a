use notch::cava::{config_path, frame_fields};

#[test]
fn frame_fields_split_and_trim() {
    assert_eq!(frame_fields("1;2; 3 ;;7\n"), vec!["1", "2", "3", "", "7"]);
    assert_eq!(frame_fields("0;0;0;"), vec!["0", "0", "0", ""]);
}

#[test]
fn frame_fields_of_empty_frame() {
    assert_eq!(frame_fields(""), vec![""]);
    assert_eq!(frame_fields(";"), vec!["", ""]);
}

#[test]
fn frame_fields_count_separators() {
    for frame in ["", "5", "1;2", ";;;", "7;6;5;4;3;2;1;0;1;2;3;4;5;6;7;6;5;4;3;2;"] {
        let separators = frame.chars().filter(|c| *c == ';').count();
        assert_eq!(frame_fields(frame).len(), separators + 1);
    }
}

#[test]
fn frame_fields_match_std_split() {
    let frame = " 4;\t5 ;6\r\n";
    let expected: Vec<String> = frame.split(';').map(|f| f.trim().to_string()).collect();
    assert_eq!(frame_fields(frame), expected);
}

#[test]
fn config_path_names_process() {
    assert_eq!(config_path(1234), "/tmp/notch-cava-1234.conf");
    assert_eq!(config_path(0), "/tmp/notch-cava-0.conf");
    assert_eq!(config_path(u32::MAX), "/tmp/notch-cava-4294967295.conf");
}
