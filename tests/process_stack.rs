use enarx::elf::LoadError;
use enarx::stack::{build_stack, AuxEntry, AuxValue, AT_PAGESZ, AT_RANDOM};

fn inputs() -> (Vec<Vec<u8>>, Vec<Vec<u8>>, Vec<AuxEntry>) {
    let args = vec![b"/init".to_vec()];
    let envs = vec![b"LANG=C".to_vec()];
    let aux = vec![
        AuxEntry { key: AT_PAGESZ, value: AuxValue::Word(4096) },
        AuxEntry { key: AT_RANDOM, value: AuxValue::Bytes(vec![0xAA; 16]) },
    ];
    (args, envs, aux)
}

fn word(b: &[u8], i: usize) -> u64 {
    u64::from_le_bytes(b[8 * i..8 * i + 8].try_into().unwrap())
}

#[test]
fn stack_layout_is_exact() {
    let (args, envs, aux) = inputs();
    let top = 0x10_0000u64;
    let st = build_stack(top, 0x1000, &args, &envs, &aux).unwrap();
    // data: "/init\0" (6) "LANG=C\0" (7) 16 random bytes = 29 bytes
    let ds = top - 29;
    // words: argc, argv0, 0, envp0, 0, 2 pairs, AT_NULL, 0 = 11 words
    let low = ds - 88;
    assert_eq!(st.sp, low - low % 16);
    assert_eq!(st.sp + st.bytes.len() as u64, top);
    let b = &st.bytes;
    assert_eq!(word(b, 0), 1);
    assert_eq!(word(b, 1), ds);
    assert_eq!(word(b, 2), 0);
    assert_eq!(word(b, 3), ds + 6);
    assert_eq!(word(b, 4), 0);
    assert_eq!(word(b, 5), AT_PAGESZ);
    assert_eq!(word(b, 6), 4096);
    assert_eq!(word(b, 7), AT_RANDOM);
    assert_eq!(word(b, 8), ds + 13);
    assert_eq!(word(b, 9), 0);
    assert_eq!(word(b, 10), 0);
    let d = &b[(ds - st.sp) as usize..];
    assert_eq!(&d[..6], b"/init\0");
    assert_eq!(&d[6..13], b"LANG=C\0");
    assert_eq!(&d[13..], &[0xAA; 16]);
}

#[test]
fn stack_construction_is_deterministic() {
    let (args, envs, aux) = inputs();
    let a = build_stack(0x10_0000, 0x1000, &args, &envs, &aux).unwrap();
    let (args, envs, aux) = inputs();
    let b = build_stack(0x10_0000, 0x1000, &args, &envs, &aux).unwrap();
    assert_eq!(a.sp, b.sp);
    assert_eq!(a.bytes, b.bytes);
}

#[test]
fn stack_overflow_is_refused() {
    let (args, envs, aux) = inputs();
    assert_eq!(build_stack(0x10_0000, 64, &args, &envs, &aux).err(), Some(LoadError::StackOverflow));
    let big = vec![vec![b'x'; 5000]];
    assert_eq!(build_stack(0x10_0000, 0x1000, &big, &envs, &aux).err(), Some(LoadError::StackOverflow));
}
