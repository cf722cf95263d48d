use randomart::error::WalkError;
use randomart::fingerprint::{fingerprint, render_digest};
use sha3::{Digest, Sha3_512};

fn unhex(text: &str) -> Vec<u8> {
    let digits: Vec<u8> = text.chars().map(|c| c.to_digit(16).unwrap() as u8).collect();
    digits.chunks(2).map(|pair| pair[0] * 16 + pair[1]).collect()
}

const EMPTY_DIGEST: &str = "a69f73cca23a9ac5c8b567dc185a756e97c982164fe25859e0d1dcc1475c80a6\
                            15b2123af1f5f94c11e3e9402c3ac558f500199d95b6d3e301758586281dcd26";

#[test]
fn a_zero_byte_wraps_over_the_top() {
    assert_eq!(
        render_digest(&[0x00], 5, 5, true),
        Ok(String::from("Grid:\n+-----+\n|   . |\n|     |\n|     |\n|    .|\n|     |\n+-----+\n"))
    );
}

#[test]
fn a_full_byte_is_clamped_into_the_corner() {
    assert_eq!(
        render_digest(&[0xFF], 3, 3, false),
        Ok(String::from("Grid:\n+---+\n|&  |\n|   |\n|   |\n+---+\n"))
    );
}

#[test]
fn the_high_half_of_a_byte_moves_first() {
    // 0x0F on 5x5, clamping: up two right one, counted up at (0,3); then
    // up two left one, counted down at (0,2).
    assert_eq!(
        render_digest(&[0x0F], 5, 5, false),
        Ok(String::from("Grid:\n+-----+\n|  [. |\n|     |\n|     |\n|     |\n|     |\n+-----+\n"))
    );
    // 0xF0: first counted down at (0,1), then counted up at (0,2).
    assert_eq!(
        render_digest(&[0xF0], 5, 5, false),
        Ok(String::from("Grid:\n+-----+\n| [.  |\n|     |\n|     |\n|     |\n|     |\n+-----+\n"))
    );
}

#[test]
fn bytes_are_walked_in_their_order() {
    // 0x22 0x66 on 5x5, clamping: (2,2) -> (3,4) -> (4,4) -> (3,2) -> (2,0).
    assert_eq!(
        render_digest(&[0x22, 0x66], 5, 5, false),
        Ok(String::from("Grid:\n+-----+\n|     |\n|     |\n|.    |\n|  . .|\n|    .|\n+-----+\n"))
    );
    // 0x66 0x22: (2,2) -> (1,0) -> (0,0) -> (1,2) -> (2,4).
    assert_eq!(
        render_digest(&[0x66, 0x22], 5, 5, false),
        Ok(String::from("Grid:\n+-----+\n|.    |\n|. .  |\n|    .|\n|     |\n|     |\n+-----+\n"))
    );
}

#[test]
fn no_bytes_leave_the_canvas_blank() {
    assert_eq!(render_digest(&[], 2, 2, true), Ok(String::from("Grid:\n+--+\n|  |\n|  |\n+--+\n")));
}

#[test]
fn a_grid_without_cells_is_refused_before_anything_else() {
    assert_eq!(render_digest(&[0x00], 0, 5, true), Err(WalkError::DegenerateGrid));
    assert_eq!(render_digest(&[0x00], 5, 0, false), Err(WalkError::DegenerateGrid));
    assert_eq!(render_digest(&[], 0, 0, true), Err(WalkError::DegenerateGrid));
    assert_eq!(fingerprint(b"abc", 0, 5, true), Err(WalkError::DegenerateGrid));
    assert_eq!(fingerprint(b"abc", 5, 0, false), Err(WalkError::DegenerateGrid));
}

#[test]
fn the_fingerprint_is_the_walk_of_the_digest() {
    let digest = unhex(EMPTY_DIGEST);
    assert_eq!(digest.len(), 64);
    for wrap in [true, false] {
        let expected = render_digest(&digest, 9, 17, wrap);
        assert!(expected.is_ok());
        assert_eq!(fingerprint(b"", 9, 17, wrap), expected);
    }
}

#[test]
fn the_fingerprint_is_not_the_walk_of_the_data() {
    let data = b"The quick brown fox jumps over the lazy dog";
    assert_ne!(fingerprint(data, 9, 17, true), render_digest(data, 9, 17, true));
}

#[test]
fn the_fingerprint_agrees_with_the_hasher() {
    let inputs: [&[u8]; 4] = [b"", b"abc", b"The quick brown fox jumps over the lazy dog", &[0u8; 200]];
    for data in inputs {
        let digest = Sha3_512::digest(data).to_vec();
        for wrap in [true, false] {
            assert_eq!(fingerprint(data, 9, 17, wrap), render_digest(&digest, 9, 17, wrap));
            assert_eq!(fingerprint(data, 1, 1, wrap), render_digest(&digest, 1, 1, wrap));
        }
    }
}

#[test]
fn two_runs_give_the_same_text() {
    let data = b"fingerprint me";
    for wrap in [true, false] {
        let first = fingerprint(data, 9, 17, wrap);
        let second = fingerprint(data, 9, 17, wrap);
        assert!(first.is_ok());
        assert_eq!(first, second);
        let digest = [0x12u8, 0x34, 0x56, 0x78, 0x9A, 0xBC, 0xDE, 0xF0];
        assert_eq!(render_digest(&digest, 7, 7, wrap), render_digest(&digest, 7, 7, wrap));
    }
}

#[test]
fn different_data_gives_a_different_picture() {
    assert_ne!(fingerprint(b"abc", 9, 17, true), fingerprint(b"abd", 9, 17, true));
}

#[test]
fn a_fingerprint_has_the_size_of_its_grid() {
    let text = fingerprint(b"abc", 9, 17, false).unwrap();
    let lines: Vec<&str> = text.split('\n').collect();
    assert_eq!(lines.len(), 13);
    assert_eq!(lines[0], "Grid:");
    assert_eq!(lines[1], "+-----------------+");
    assert_eq!(lines[11], "+-----------------+");
    for line in &lines[2..11] {
        assert_eq!(line.chars().count(), 19);
        assert!(line.starts_with('|') && line.ends_with('|'));
    }
}
