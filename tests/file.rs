use palaver::file::{fd_dir, fd_path, next_move, plan_moves, transfer_step};
use palaver::valgrind;
use palaver::{Hex, ToHex};

#[test]
fn hex_renders_two_digits_per_byte() {
    let bytes: &[u8] = &[0x01, 0xab, 0xff, 0x30];
    assert_eq!(bytes.to_hex().to_string(), "01abff30");
    let empty: &[u8] = &[];
    assert_eq!(empty.to_hex().to_string(), "");
    let mut h = Hex::new(&[0x9c]);
    assert_eq!(h.next(), Some('9'));
    assert_eq!(h.to_string(), "c");
    assert_eq!(h.next(), Some('c'));
    assert_eq!(h.next(), None);
    assert_eq!(h.next(), None);
}

#[test]
fn fd_paths() {
    assert_eq!(fd_dir(), "/proc/self/fd");
    assert_eq!(fd_path(0), "/proc/self/fd/0");
    assert_eq!(fd_path(5), "/proc/self/fd/5");
    assert_eq!(fd_path(1234), "/proc/self/fd/1234");
    assert_eq!(fd_path(-7), "/proc/self/fd/-7");
    assert_eq!(palaver::proc::fd_dir(), "/proc/self/fd");
    assert_eq!(palaver::proc::fd_path(42), "/proc/self/fd/42");
}

#[test]
fn moves_never_overwrite_a_pending_source() {
    let mut t = vec![(3, 4), (4, 5)];
    assert_eq!(next_move(&t), Some(1));
    let plan = plan_moves(&mut t);
    assert_eq!(plan, vec![1, 0]);
    assert_eq!(t, vec![(4, 4), (5, 5)]);

    let mut t = vec![(5, 5), (6, 1)];
    assert_eq!(plan_moves(&mut t), vec![1]);
    assert_eq!(t, vec![(5, 5), (1, 1)]);
}

#[test]
fn a_ring_of_moves_is_left_alone() {
    let mut t = vec![(3, 4), (4, 3)];
    assert_eq!(next_move(&t), None);
    assert_eq!(plan_moves(&mut t), Vec::<usize>::new());
    assert_eq!(t, vec![(3, 4), (4, 3)]);
}

#[test]
fn valgrind_start_fd_is_the_hard_limit() {
    assert_eq!(valgrind::start_fd(1024), 1024);
    assert_eq!(valgrind::start_fd(0), 0);
    assert_eq!(valgrind::is(), Err(()));
}

#[test]
fn transfer_advances_or_stops() {
    assert_eq!(transfer_step(10, 0, 4), Some(4));
    assert_eq!(transfer_step(10, 4, 6), Some(10));
    assert_eq!(transfer_step(10, 4, 0), None);
}
