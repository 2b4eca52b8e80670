use conmonrs::fd_mapping::{plan_fd_mappings, validate_child_fds, FdMapping, FdMappingCollision};
use conmonrs::fd_socket::{
    decode_request, encode_error, encode_response, fd_count_error, requested_fds, serve_step,
    FdRequest, FdSocketError, ServeStep, SlotState,
};

fn m(parent_fd: i32, child_fd: i32) -> FdMapping {
    FdMapping { parent_fd, child_fd }
}

#[test]
fn fd_validate_sorts_child_fds() {
    assert_eq!(validate_child_fds(&[m(10, 5), m(11, 3), m(12, 4)]), Ok(vec![3, 4, 5]));
    assert_eq!(validate_child_fds(&[]), Ok(vec![]));
}

#[test]
fn fd_validate_refuses_collisions() {
    assert_eq!(validate_child_fds(&[m(10, 3), m(11, 3)]), Err(FdMappingCollision));
    assert_eq!(
        FdMappingCollision.message(),
        "Two or more mappings for the same child FD"
    );
}

#[test]
fn fd_plan() {
    assert!(plan_fd_mappings(&[]).is_none());
    // Parent 4 is the target of the second mapping: it moves away first.
    let plan = plan_fd_mappings(&[m(4, 3), m(10, 4), m(5, 5)]).unwrap();
    assert_eq!(plan.first_safe_fd, 11);
    assert!(plan.steps[0].relocate && !plan.steps[0].in_place);
    assert!(!plan.steps[1].relocate && !plan.steps[1].in_place);
    assert!(!plan.steps[2].relocate && plan.steps[2].in_place);
}

#[test]
fn fd_socket_slots() {
    let mut s: SlotState<&str> = SlotState::new();
    assert_eq!(s.add("a"), 1);
    assert_eq!(s.add("b"), 2);
    assert_eq!(s.take(1), Ok("a"));
    assert_eq!(s.take(1), Err(FdSocketError::NoFileDescriptor(1)));
    // Slots keep counting up from the last one handed out.
    assert_eq!(s.add("c"), 3);
    assert_eq!(s.take_all(&[3, 2]), Ok(vec!["c", "b"]));
    let x = s.add("x");
    s.close(&[x]);
    assert_eq!(s.take(x), Err(FdSocketError::NoFileDescriptor(x)));
}

#[test]
fn fd_socket_take_all_stops_at_empty_slot() {
    let mut s: SlotState<u8> = SlotState::new();
    let a = s.add(1);
    assert_eq!(s.take_all(&[a, 77]), Err(FdSocketError::NoFileDescriptor(77)));
}

#[test]
fn fd_socket_protocol() {
    let header: u64 = (5u64 << 32) | 2;
    let buf = header.to_le_bytes();
    assert_eq!(decode_request(8, &buf), FdRequest::Header(header));
    assert_eq!(decode_request(0, &buf), FdRequest::Eof);
    assert_eq!(decode_request(3, &buf), FdRequest::Invalid);
    assert_eq!(requested_fds(header), 2);

    let r = encode_response(header, &[7, 8]);
    let mut want = header.to_le_bytes().to_vec();
    want.extend_from_slice(&7u64.to_le_bytes());
    want.extend_from_slice(&8u64.to_le_bytes());
    assert_eq!(r, want);

    let e = encode_error(header, b"oops");
    let mut want = ((5u64 << 32) | 0xffff_ffff).to_le_bytes().to_vec();
    want.extend_from_slice(b"oops");
    assert_eq!(e, want);

    assert_eq!(fd_count_error(1, 2), "received 1 fds, but expected 2 fds");
}

#[test]
fn fd_socket_serve_steps() {
    assert_eq!(serve_step(FdRequest::Eof, 0), ServeStep::Stop);
    assert_eq!(serve_step(FdRequest::Invalid, 0), ServeStep::Skip);
    // An empty request closes the connection's descriptors and gets no answer.
    assert_eq!(serve_step(FdRequest::Header(0), 0), ServeStep::CloseAll);
    assert_eq!(serve_step(FdRequest::Header((1 << 32) | 2), 2), ServeStep::Accept);
    assert_eq!(serve_step(FdRequest::Header((1 << 32) | 2), 1), ServeStep::Refuse);
}

#[test]
fn fd_plan_swaps_crossing_descriptors() {
    // Mappings 3 -> 4 and 4 -> 3: carry the plan out on a table of open files.
    let ms = [m(3, 4), m(4, 3)];
    let plan = plan_fd_mappings(&ms).unwrap();
    let mut table: std::collections::BTreeMap<i32, &str> = std::collections::BTreeMap::new();
    table.insert(3, "file-a");
    table.insert(4, "file-b");
    let mut moved = Vec::new();
    for (mapping, step) in ms.iter().zip(plan.steps.iter()) {
        if step.relocate {
            let mut fd = plan.first_safe_fd;
            while table.contains_key(&fd) {
                fd += 1;
            }
            let file = table[&mapping.parent_fd];
            table.insert(fd, file);
            moved.push(fd);
        } else {
            moved.push(mapping.parent_fd);
        }
    }
    for ((mapping, step), from) in ms.iter().zip(plan.steps.iter()).zip(moved) {
        if !step.in_place {
            let file = table[&from];
            table.insert(mapping.child_fd, file);
        }
    }
    assert_eq!(table[&4], "file-a");
    assert_eq!(table[&3], "file-b");
}

#[test]
fn fd_socket_take_all_empties_earlier_slots_on_error() {
    let mut s: SlotState<u8> = SlotState::new();
    let a = s.add(1);
    let b = s.add(2);
    assert_eq!(s.take_all(&[a, 99, b]), Err(FdSocketError::NoFileDescriptor(99)));
    assert_eq!(s.take(a), Err(FdSocketError::NoFileDescriptor(a)));
    assert_eq!(s.take(b), Ok(2));
    // A slot named twice is empty the second time.
    let c = s.add(3);
    assert_eq!(s.take_all(&[c, c]), Err(FdSocketError::NoFileDescriptor(c)));
    assert_eq!(s.take_all(&[]), Ok(vec![]));
}
