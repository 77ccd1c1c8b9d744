use wasm_workers::stack::{stack_pop, stack_push, LengthStack, StackError, STACK_CAPACITY};
use wasm_workers::transfer::{
    pop_length, push_length, read_bytes, read_string, write_bytes, write_string, FromMem, ToMem,
    TransferError,
};

#[test]
fn pops_return_pushes_in_reverse() {
    let mut s = LengthStack::new();
    for v in [3, 14, 15, 92] {
        stack_push(&mut s, v);
    }
    assert_eq!(stack_pop(&mut s), 92);
    assert_eq!(stack_pop(&mut s), 15);
    assert_eq!(stack_pop(&mut s), 14);
    assert_eq!(stack_pop(&mut s), 3);
    assert!(s.is_empty());
}

#[test]
fn pop_without_push_fails() {
    let mut s = LengthStack::new();
    assert_eq!(pop_length(&mut s), Err(TransferError::Stack(StackError::Empty)));
    assert_eq!(pop_length(&mut s), Err(TransferError::Stack(StackError::Empty)));
    assert_eq!(s.len(), 0);
}

#[test]
fn push_past_capacity_fails() {
    let mut s = LengthStack::new();
    for i in 0..STACK_CAPACITY {
        assert_eq!(push_length(&mut s, i), Ok(()));
    }
    assert_eq!(push_length(&mut s, 7), Err(TransferError::Stack(StackError::Full)));
    assert_eq!(s.len(), 256);
    assert_eq!(stack_pop(&mut s), 255);
}

#[test]
fn length_round_trip_at_the_edges() {
    for len in [0usize, 1, 65536] {
        let mut s = LengthStack::new();
        assert_eq!(push_length(&mut s, len), Ok(()));
        assert_eq!(pop_length(&mut s), Ok(len));
        assert!(s.is_empty());
    }
}

#[test]
fn oversized_length_is_refused() {
    let mut s = LengthStack::new();
    assert_eq!(push_length(&mut s, 0x8000_0000), Err(TransferError::TooLong));
    assert_eq!(push_length(&mut s, 0x7fff_ffff), Ok(()));
    assert_eq!(pop_length(&mut s), Ok(0x7fff_ffff));
}

#[test]
fn negative_entry_is_not_a_length() {
    let mut s = LengthStack::new();
    stack_push(&mut s, -1);
    assert_eq!(pop_length(&mut s), Err(TransferError::NegativeLength));
    assert!(s.is_empty());
}

#[test]
fn bytes_written_then_read_come_back() {
    for len in [0usize, 5, 65536] {
        let payload: Vec<u8> = (0..len).map(|i| (i * 7 % 251) as u8).collect();
        let mut memory = vec![0xAAu8; len + 20];
        let mut s = LengthStack::new();
        write_bytes(&mut memory, 10, &payload, &mut s).unwrap();
        assert_eq!(&memory[..10], &[0xAA; 10]);
        assert_eq!(&memory[10 + len..], &[0xAA; 10]);
        let back = read_bytes(&memory, 10, &mut s).unwrap();
        assert_eq!(back.len(), len);
        assert_eq!(back, payload);
        assert!(s.is_empty());
    }
}

#[test]
fn write_outside_memory_changes_nothing() {
    let mut memory = vec![0u8; 4];
    let mut s = LengthStack::new();
    assert_eq!(write_bytes(&mut memory, 2, &[1, 2, 3], &mut s), Err(TransferError::OutOfBounds));
    assert_eq!(memory, vec![0u8; 4]);
    assert!(s.is_empty());
}

#[test]
fn read_outside_memory_still_pops() {
    let memory = vec![0u8; 4];
    let mut s = LengthStack::new();
    push_length(&mut s, 8).unwrap();
    assert_eq!(read_bytes(&memory, 0, &mut s), Err(TransferError::OutOfBounds));
    assert!(s.is_empty());
    assert_eq!(read_bytes(&memory, 0, &mut s), Err(TransferError::Stack(StackError::Empty)));
}

#[test]
fn strings_cross_both_ways() {
    let mut memory = vec![0u8; 32];
    let mut s = LengthStack::new();
    write_string(&mut memory, 3, "héllo", &mut s).unwrap();
    assert_eq!(&memory[3..9], "héllo".as_bytes());
    assert_eq!(read_string(&memory, 3, &mut s).unwrap(), "héllo");
}

#[test]
fn invalid_text_is_refused() {
    let memory = vec![0xC0u8, 0x80];
    let mut s = LengthStack::new();
    push_length(&mut s, 2).unwrap();
    assert_eq!(read_string(&memory, 0, &mut s), Err(TransferError::InvalidUtf8));
}

#[test]
fn to_mem_then_from_mem_round_trip() {
    let mut s = LengthStack::new();
    let text = String::from("{\"status\":200}");
    let bytes = text.clone().to_mem(&mut s).unwrap();
    assert_eq!(s.len(), 1);
    let back = String::from_mem(&bytes, &mut s).unwrap();
    assert_eq!(back, text);
    assert!(s.is_empty());

    let bytes = "ünï".to_mem(&mut s).unwrap();
    assert_eq!(bytes, "ünï".as_bytes());
    assert_eq!(String::from_mem(&bytes, &mut s).unwrap(), "ünï");
}
