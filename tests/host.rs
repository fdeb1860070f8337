use enarx::attestation::{
    get_attestation_key_id, get_key_id_num, get_key_ids, get_key_size, get_quote, get_target_info,
    key_ids_buffer_size, quote_report, AttestationError, SGX_QUOTE_SIZE, SGX_TI_SIZE,
};
use enarx::aslr::gather_entropy;
use enarx::cet::{init_cet, CetError};
use enarx::channel::{KeepMemory, Message};
use enarx::cli::logout::{CliError, Options};
use enarx::cli::register::registration_payload;
use enarx::keep::{action, decode_trap, Action, Command, HostError, Keep, ThreadState, TRAP_CONTINUE, TRAP_CPUID, TRAP_SYSCALL};
use enarx::attestation::{frame_request, get_attestation, plan_attestation, AttestationKind, key_ids_request, key_size_request, quote_request, target_info_request, AesmRequest, AESM_REQUEST_TIMEOUT};
use enarx::cli::sev::{DigestOptions, Subcommands};
use enarx::mem::{bcmp, memcmp};
use enarx::sign::{Es384, PublicKey, Signature};

#[test]
fn exit_request_ends_the_control_loop() {
    let mut keep = Keep::new(1);
    let mut t = keep.spawn().unwrap();
    assert_eq!(t.state(), ThreadState::Created);
    t.resume().unwrap();
    let first = t.stop(TRAP_CONTINUE, Message::new(0, [0; 6])).unwrap();
    assert_eq!(first, Command::Continue);
    assert_eq!(action(&first), Action::Resume);
    t.resume().unwrap();
    let second = t.stop(TRAP_SYSCALL, Message::new(60, [42, 0, 0, 0, 0, 0])).unwrap();
    assert_eq!(second, Command::Exit(42));
    assert_eq!(action(&second), Action::Finish(42));
    assert_eq!(t.state(), ThreadState::Terminated);
    assert_eq!(t.resume(), Err(HostError::NotResumable));
}

#[test]
fn unknown_trap_is_a_fatal_error() {
    let mut keep = Keep::new(2);
    let mut t = keep.spawn().unwrap();
    t.resume().unwrap();
    assert_eq!(t.stop(77, Message::new(0, [0; 6])), Err(HostError::UnknownTrap(77)));
    assert_eq!(t.state(), ThreadState::Terminated);
}

#[test]
fn commands_of_each_kind() {
    let m = Message::new(1, [1, 2, 3, 4, 5, 6]);
    assert_eq!(decode_trap(TRAP_SYSCALL, m), Ok(Command::SysCall(m)));
    assert_eq!(decode_trap(TRAP_CPUID, m), Ok(Command::CpuId(m)));
    assert_eq!(decode_trap(TRAP_SYSCALL, Message::new(231, [0xFFFF_FFFF, 0, 0, 0, 0, 0])), Ok(Command::Exit(-1)));
    assert_eq!(action(&Command::SysCall(m)), Action::ServiceSysCall);
    assert_eq!(action(&Command::CpuId(m)), Action::ServiceCpuId);
}

#[test]
fn slots_run_out() {
    let mut keep = Keep::new(1);
    let t = keep.spawn().unwrap();
    assert_eq!(t.slot(), 0);
    assert!(matches!(keep.spawn(), Err(HostError::NoFreeSlot)));
}

#[test]
fn channel_reply_and_arguments() {
    let mut m = Message::new(0, [0; 6]);
    m.set_arg(3, 99);
    m.reply(7);
    assert_eq!(m.arg(3), 99);
    assert_eq!(m.ret, 7);
    assert_eq!(std::mem::size_of::<Message>(), 64);
}

#[test]
fn request_ranges_are_checked() {
    let mem = KeepMemory { base: 0x1000, size: 0x100 };
    assert_eq!(mem.translate(0x1010, 0x10), Some(0x10));
    assert_eq!(mem.translate(0x1000, 0x100), Some(0));
    assert_eq!(mem.translate(0x1001, 0x100), None);
    assert_eq!(mem.translate(0xFFF, 1), None);
    assert_eq!(mem.translate(0x1100, 0), Some(0x100));
    assert_eq!(mem.translate(u64::MAX, u64::MAX), None);
}

#[test]
fn key_ids_are_split_and_checked() {
    assert_eq!(get_key_id_num(0, 1), Ok(1));
    assert_eq!(get_key_id_num(5, 1), Err(AttestationError::Service(5)));
    assert_eq!(key_ids_buffer_size(2), Some(512));
    assert_eq!(key_ids_buffer_size(0x100_0000), None);
    let mut blob = vec![1u8; 256];
    blob.extend(vec![2u8; 256]);
    blob.extend(vec![3u8; 10]);
    let ids = get_key_ids(0, &blob).unwrap();
    assert_eq!(ids, vec![vec![1u8; 256], vec![2u8; 256]]);
    assert_eq!(get_key_ids(3, &blob).err(), Some(AttestationError::Service(3)));
    assert_eq!(get_attestation_key_id(1, &vec![vec![4u8; 256]]), Ok(vec![4u8; 256]));
    assert_eq!(get_attestation_key_id(2, &ids), Err(AttestationError::UnexpectedKeyCount(2)));
    assert_eq!(get_attestation_key_id(1, &ids), Err(AttestationError::UnexpectedKeyCount(2)));
    assert_eq!(get_key_size(0, 384), Ok(384));
    assert_eq!(get_key_size(9, 384), Err(AttestationError::Service(9)));
}

#[test]
fn target_info_and_quote_fill_the_buffer() {
    let mut out = vec![1u8; SGX_TI_SIZE];
    assert_eq!(get_target_info(0, &vec![7u8; SGX_TI_SIZE], &mut out), Ok(SGX_TI_SIZE));
    assert_eq!(out, vec![7u8; SGX_TI_SIZE]);
    let mut short = vec![0u8; 3];
    assert_eq!(get_target_info(0, &vec![7u8; SGX_TI_SIZE], &mut short), Err(AttestationError::BadOutputSize(3)));
    assert_eq!(get_target_info(4, &vec![7u8; SGX_TI_SIZE], &mut out), Err(AttestationError::Service(4)));
    assert_eq!(get_target_info(0, &vec![7u8; 5], &mut out), Err(AttestationError::BadAnswerSize(5)));
    let mut q = vec![0u8; SGX_QUOTE_SIZE];
    assert_eq!(get_quote(0, &vec![9u8; SGX_QUOTE_SIZE], &mut q), Ok(SGX_QUOTE_SIZE));
    assert_eq!(q[SGX_QUOTE_SIZE - 1], 9);
    assert_eq!(quote_report(&vec![1u8; 500]).unwrap().len(), 432);
    assert_eq!(quote_report(&vec![1u8; 10]).err(), Some(AttestationError::ShortReport(10)));
}

#[test]
fn signature_records_default_to_zero() {
    let e = Es384::default();
    assert_eq!(e.r, [0u8; 0x48]);
    let s = Signature::default();
    assert!(s.reserved_is_zero());
    assert_eq!(s.component, e);
    let k = PublicKey::default();
    assert_eq!(k.curve, 2);
    assert_eq!(std::mem::size_of::<Signature>(), 512);
    assert_eq!(std::mem::size_of::<PublicKey>(), 1028);
}

#[test]
fn logout_is_not_implemented() {
    assert_eq!(Options {}.execute(), Err(CliError::NotImplemented));
}

#[test]
fn registration_skips_the_header() {
    assert_eq!(registration_payload(&vec![0, 1, 2, 3, 4, 5, 6, 7, 8, 9]), Some(vec![8, 9]));
    assert_eq!(registration_payload(&vec![1, 2]), None);
}

#[test]
fn cet_registers() {
    assert_eq!(init_cet(0x80, 0x10_0000, 0x10, 0x40), Ok((0x80_0010, 0x45)));
    assert_eq!(init_cet(0, 0x10_0000, 0, 0), Err(CetError::NoShadowStack));
    assert_eq!(init_cet(0x80, 0, 0, 0), Err(CetError::NoIndirectBranchTracking));
}

#[test]
fn entropy_with_fallback_always_succeeds() {
    assert!(gather_entropy(true).is_ok());
}

#[test]
fn request_target_info() {
    let mut output = vec![1u8; SGX_TI_SIZE];
    let key_ids = vec![5u8; 256];
    let answer = vec![0x5Au8; SGX_TI_SIZE];
    assert_eq!(
        get_attestation(0, &vec![], (0, 1), (0, &key_ids), (0, 384), (0, &answer), &mut output).unwrap(),
        SGX_TI_SIZE
    );
}

#[test]
fn pending_replies_block_resume() {
    let mut keep = Keep::new(1);
    let mut t = keep.spawn().unwrap();
    t.resume().unwrap();
    let m = Message::new(1, [1, 2, 3, 0, 0, 0]);
    assert_eq!(t.stop(TRAP_SYSCALL, m), Ok(Command::SysCall(m)));
    assert_eq!(t.state(), ThreadState::AwaitingSysCallReply);
    assert_eq!(t.resume(), Err(HostError::NotResumable));
    assert_eq!(t.answer_cpuid(1, 2, 3, 4), Err(HostError::NothingPending));
    assert_eq!(t.reply_syscall(3), Ok(()));
    assert_eq!(t.channel().ret, 3);
    assert_eq!(t.resume(), Ok(()));
    assert_eq!(t.stop(TRAP_CPUID, m), Ok(Command::CpuId(m)));
    assert_eq!(t.state(), ThreadState::AwaitingCpuIdAnswer);
    assert_eq!(t.answer_cpuid(10, 20, 30, 40), Ok(()));
    assert_eq!(t.channel().argv, [10, 20, 30, 40, 0, 0]);
    assert_eq!(t.reply_syscall(1), Err(HostError::NothingPending));
    assert_eq!(t.resume(), Ok(()));
}

#[test]
fn requests_to_the_quoting_service() {
    assert!(matches!(AesmRequest::new(), AesmRequest::GetSupportedAttKeyIdNum { timeout: AESM_REQUEST_TIMEOUT }));
    assert!(matches!(key_ids_request(1), Some(AesmRequest::GetSupportedAttKeyIds { timeout: AESM_REQUEST_TIMEOUT, buf_size: 256 })));
    assert!(key_ids_request(u32::MAX).is_none());
    match key_size_request(vec![1, 2]) {
        AesmRequest::InitQuoteEx { timeout, b_pub_key_id, att_key_id, size } => {
            assert_eq!((timeout, b_pub_key_id, att_key_id, size), (AESM_REQUEST_TIMEOUT, false, vec![1, 2], None));
        }
        _ => panic!("wrong request"),
    }
    match target_info_request(vec![3], 384) {
        AesmRequest::InitQuoteEx { timeout, b_pub_key_id, att_key_id, size } => {
            assert_eq!((timeout, b_pub_key_id, att_key_id, size), (AESM_REQUEST_TIMEOUT, true, vec![3], Some(384)));
        }
        _ => panic!("wrong request"),
    }
    match quote_request(&vec![7u8; 500], vec![4]).unwrap() {
        AesmRequest::GetQuoteEx { timeout, report, att_key_id, buf_size } => {
            assert_eq!(timeout, AESM_REQUEST_TIMEOUT);
            assert_eq!(report, vec![7u8; 432]);
            assert_eq!(att_key_id, vec![4]);
            assert_eq!(buf_size as usize, SGX_QUOTE_SIZE);
        }
        _ => panic!("wrong request"),
    }
    assert!(quote_request(&vec![7u8; 5], vec![4]).is_err());
    assert_eq!(frame_request(&vec![9, 8, 7]), Some(vec![3, 0, 0, 0, 9, 8, 7]));
}

#[test]
fn attestation_chooses_target_info_or_quote() {
    let ids = vec![5u8; 256];
    let ti = vec![6u8; SGX_TI_SIZE];
    let mut out = vec![0u8; SGX_TI_SIZE];
    assert_eq!(get_attestation(0, &vec![], (0, 1), (0, &ids), (0, 384), (0, &ti), &mut out), Ok(SGX_TI_SIZE));
    assert_eq!(out, ti);
    let quote = vec![7u8; SGX_QUOTE_SIZE];
    let mut qout = vec![0u8; SGX_QUOTE_SIZE];
    assert_eq!(get_attestation(1, &vec![1u8; 432], (0, 1), (0, &ids), (0, 0), (0, &quote), &mut qout), Ok(SGX_QUOTE_SIZE));
    assert_eq!(qout, quote);
    let mut small = vec![0u8; 4];
    assert_eq!(get_attestation(1, &vec![1u8; 432], (0, 1), (0, &ids), (0, 0), (0, &quote), &mut small), Err(AttestationError::BadOutputSize(4)));
    assert_eq!(get_attestation(1, &vec![1u8; 4], (0, 1), (0, &ids), (0, 0), (0, &quote), &mut qout), Err(AttestationError::ShortReport(4)));
    assert_eq!(get_attestation(0, &vec![], (0, 2), (0, &ids), (0, 384), (0, &ti), &mut out), Err(AttestationError::UnexpectedKeyCount(2)));
    assert_eq!(get_attestation(0, &vec![], (0, 1), (0, &ids), (3, 384), (0, &ti), &mut out), Err(AttestationError::Service(3)));
    assert_eq!(get_attestation(0, &vec![], (0, 1), (0, &vec![]), (0, 384), (0, &ti), &mut out), Err(AttestationError::UnexpectedKeyCount(0)));
}

#[test]
fn sev_digest_is_not_implemented() {
    assert_eq!(Subcommands::Digest(DigestOptions {}).dispatch(), Err(CliError::NotImplemented));
}

#[test]
fn bcmp_gives_memcmp_value() {
    assert_eq!(bcmp(&vec![1, 9], &vec![1, 2], 2), 7);
    assert_eq!(bcmp(&vec![1, 9], &vec![1, 2], 2), memcmp(&vec![1, 9], &vec![1, 2], 2));
}

#[test]
fn attestation_buffers_are_checked_before_any_request() {
    assert_eq!(plan_attestation(0, 0, SGX_TI_SIZE), Ok(AttestationKind::TargetInfo));
    assert_eq!(plan_attestation(0, 0, 7), Err(AttestationError::BadOutputSize(7)));
    assert_eq!(plan_attestation(9, 432, SGX_QUOTE_SIZE), Ok(AttestationKind::Quote));
    assert_eq!(plan_attestation(9, 432, SGX_TI_SIZE), Err(AttestationError::BadOutputSize(SGX_TI_SIZE as u64)));
    assert_eq!(plan_attestation(9, 10, SGX_QUOTE_SIZE), Err(AttestationError::ShortReport(10)));
    // a wrong buffer is reported even when the key answers are errors too
    let mut small = vec![0u8; 3];
    assert_eq!(get_attestation(0, &vec![], (5, 0), (0, &vec![]), (0, 0), (0, &vec![]), &mut small), Err(AttestationError::BadOutputSize(3)));
}
