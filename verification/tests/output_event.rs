use massa_models::digest::Digest;
use massa_models::output_event::{EventExecutionContext, SCOutputEvent, SCOutputEventId};
use massa_models::{Address, BlockId, ModelsError, Slot, EVENT_ID_SIZE_BYTES};
use std::collections::VecDeque;

fn hello_world_id() -> SCOutputEventId {
    let hash = blake3::hash("hello world".as_bytes());
    SCOutputEventId(Digest(*hash.as_bytes()))
}

fn id_from_bytes(bytes: [u8; EVENT_ID_SIZE_BYTES]) -> SCOutputEventId {
    SCOutputEventId(Digest(bytes))
}

#[test]
fn byte_round_trip() {
    let id = hello_world_id();
    let bytes = id.to_bytes();
    assert_eq!(bytes.len(), EVENT_ID_SIZE_BYTES);
    let back = SCOutputEventId::from_bytes(&bytes).unwrap();
    assert_eq!(back, id);
    assert_eq!(id.into_bytes(), bytes);
}

#[test]
fn text_round_trip() {
    let id = hello_world_id();
    let text = id.to_bs58_check();
    let back = SCOutputEventId::from_bs58_check(&text).unwrap();
    assert_eq!(back, id);
}

#[test]
fn encoding_matches_base58check() {
    let id = id_from_bytes([7u8; EVENT_ID_SIZE_BYTES]);
    let text = id.to_bs58_check();
    let expected = bs58::encode([7u8; EVENT_ID_SIZE_BYTES])
        .with_check()
        .into_string();
    assert_eq!(text, expected);
    let decoded = bs58::decode(&text).with_check(None).into_vec().unwrap();
    assert_eq!(decoded, vec![7u8; EVENT_ID_SIZE_BYTES]);
}

#[test]
fn parse_equivalence() {
    let id = hello_world_id();
    let valid = id.to_bs58_check();
    let mut corrupted = valid.clone();
    let last = corrupted.pop().unwrap();
    corrupted.push(if last == '1' { '2' } else { '1' });
    let inputs = [valid.as_str(), corrupted.as_str(), "", "not/base58!", "PWEu9GGN"];
    for s in inputs {
        let parsed = SCOutputEventId::from_str(s);
        let decoded = SCOutputEventId::from_bs58_check(s);
        assert_eq!(parsed, decoded);
    }
    assert_eq!(SCOutputEventId::from_str(&valid), Ok(id));
}

#[test]
fn wrong_length_bytes_fail() {
    let id = hello_world_id();
    let bytes = id.to_bytes();
    let truncated = &bytes[..EVENT_ID_SIZE_BYTES - 1];
    assert_eq!(
        SCOutputEventId::from_byte_slice(truncated),
        Err(ModelsError::HashError)
    );
    assert_eq!(
        SCOutputEventId::from_byte_slice(&[]),
        Err(ModelsError::HashError)
    );
    let long = [0u8; EVENT_ID_SIZE_BYTES + 1];
    assert_eq!(
        SCOutputEventId::from_byte_slice(&long),
        Err(ModelsError::HashError)
    );
    assert_eq!(SCOutputEventId::from_byte_slice(&bytes), Ok(id));
}

#[test]
fn corrupted_checksum_fails() {
    let id = hello_world_id();
    let valid = id.to_bs58_check();
    let mut corrupted = valid.clone();
    let last = corrupted.pop().unwrap();
    corrupted.push(if last == '1' { '2' } else { '1' });
    assert_eq!(
        SCOutputEventId::from_bs58_check(&corrupted),
        Err(ModelsError::HashError)
    );
    // A well-formed Base58Check string whose payload is not digest-sized is
    // rejected with the same error kind.
    assert_eq!(
        SCOutputEventId::from_bs58_check("PWEu9GGN"),
        Err(ModelsError::HashError)
    );
    assert_eq!(
        SCOutputEventId::from_bs58_check("not/base58!"),
        Err(ModelsError::HashError)
    );
}

#[test]
fn ordering_follows_byte_encoding() {
    let mut low = [0u8; EVENT_ID_SIZE_BYTES];
    let mut high = [0u8; EVENT_ID_SIZE_BYTES];
    high[EVENT_ID_SIZE_BYTES - 1] = 1;
    let a = id_from_bytes(low);
    let b = id_from_bytes(high);
    assert!(a < b);
    assert!(b > a);
    assert!(a <= a && a >= a);
    assert_eq!(a.partial_cmp(&a), Some(std::cmp::Ordering::Equal));
    assert_eq!(a.partial_cmp(&b), Some(std::cmp::Ordering::Less));
    assert_eq!(b.partial_cmp(&a), Some(std::cmp::Ordering::Greater));

    // The first byte dominates the last.
    low[0] = 2;
    high[0] = 1;
    let c = id_from_bytes(low);
    let d = id_from_bytes(high);
    assert!(d < c);
    assert_eq!(a.to_bytes() < b.to_bytes(), a < b);
    assert_eq!(c.to_bytes() < d.to_bytes(), c < d);
}

#[test]
fn call_stack_order_preserved() {
    let addrs: Vec<Address> = (0u8..5u8)
        .map(|i| Address(Digest([i; EVENT_ID_SIZE_BYTES])))
        .collect();
    let mut stack = VecDeque::new();
    for a in &addrs {
        stack.push_back(*a);
    }
    let ctx = EventExecutionContext::new(
        Slot { period: 4, thread: 2 },
        Some(BlockId(Digest([9u8; EVENT_ID_SIZE_BYTES]))),
        false,
        7,
        stack,
    );
    assert_eq!(ctx.call_stack.len(), addrs.len());
    for (got, expected) in ctx.call_stack.iter().zip(addrs.iter()) {
        assert_eq!(got, expected);
    }
    assert_eq!(ctx.slot, Slot { period: 4, thread: 2 });
    assert_eq!(ctx.block, Some(BlockId(Digest([9u8; EVENT_ID_SIZE_BYTES]))));
    assert!(!ctx.read_only);
    assert_eq!(ctx.index_in_slot, 7);
}

#[test]
fn call_stack_push_and_pop_at_tail() {
    let mut ctx = EventExecutionContext::new(
        Slot { period: 0, thread: 0 },
        None,
        true,
        0,
        VecDeque::new(),
    );
    let first = Address(Digest([1u8; EVENT_ID_SIZE_BYTES]));
    let second = Address(Digest([2u8; EVENT_ID_SIZE_BYTES]));
    ctx.push_call(first);
    ctx.push_call(second);
    assert_eq!(ctx.call_stack.front(), Some(&first));
    assert_eq!(ctx.call_stack.back(), Some(&second));
    assert_eq!(ctx.pop_call(), Some(second));
    assert_eq!(ctx.pop_call(), Some(first));
    assert_eq!(ctx.pop_call(), None);
}

#[test]
fn output_event_keeps_parts() {
    let id = hello_world_id();
    let ctx = EventExecutionContext::new(
        Slot { period: 1, thread: 3 },
        None,
        false,
        0,
        VecDeque::new(),
    );
    let event = SCOutputEvent::new(id, ctx, String::from("{\"k\":1}"));
    assert_eq!(event.id, id);
    assert_eq!(event.data, "{\"k\":1}");
    assert_eq!(event.context.slot, Slot { period: 1, thread: 3 });
}

#[test]
fn scenario_hello_world() {
    let hash = blake3::hash("hello world".as_bytes());
    let id = SCOutputEventId(Digest(*hash.as_bytes()));
    let bytes = id.to_bytes();
    assert_eq!(bytes.len(), EVENT_ID_SIZE_BYTES);
    assert_eq!(SCOutputEventId::from_bytes(&bytes), Ok(id));
    let text = id.to_bs58_check();
    assert_eq!(SCOutputEventId::from_bs58_check(&text), Ok(id));
    assert_eq!(
        SCOutputEventId::from_byte_slice(&bytes[..EVENT_ID_SIZE_BYTES - 1]),
        Err(ModelsError::HashError)
    );
    let mut flipped = text.clone();
    let last = flipped.pop().unwrap();
    flipped.push(if last == '1' { '2' } else { '1' });
    assert_eq!(
        SCOutputEventId::from_bs58_check(&flipped),
        Err(ModelsError::HashError)
    );
}
