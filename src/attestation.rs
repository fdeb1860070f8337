//! What the host does with the quoting service's answers when a payload asks
//! for target information or a quote: every answer is checked before any of
//! it reaches the payload's buffer.

use vstd::prelude::*;

verus! {

/// Size of the quoting enclave's target information.
pub const SGX_TI_SIZE: usize = 512;
/// Size of a quote.
pub const SGX_QUOTE_SIZE: usize = 4598;
/// Size of one attestation key id.
pub const SGX_KEY_ID_SIZE: usize = 256;
/// Size of the report a quote is made from.
pub const SGX_REPORT_SIZE: usize = 432;
/// How long the service may take for a request, in milliseconds.
pub const AESM_REQUEST_TIMEOUT: u32 = 1_000_000;

#[derive(Clone, Copy, Debug, PartialEq, Eq, Structural)]
pub enum AttestationError {
    /// The service answered with this error code.
    Service(u32),
    /// The service offers another number of attestation keys than one.
    UnexpectedKeyCount(u64),
    /// The caller's output buffer has the wrong size.
    BadOutputSize(u64),
    /// The service's answer has the wrong size.
    BadAnswerSize(u64),
    /// The report to be quoted is too short.
    ShortReport(u64),
}

/// The number of attestation keys the service reported.
pub fn get_key_id_num(error_code: u32, num: u32) -> (r: Result<u32, AttestationError>)
    ensures
        r == (if error_code != 0 {
            Err::<u32, AttestationError>(AttestationError::Service(error_code))
        } else {
            Ok(num)
        }),
{
    if error_code != 0 {
        return Err(AttestationError::Service(error_code));
    }
    Ok(num)
}

/// The size of the buffer that `num_key_ids` key ids take.
pub fn key_ids_buffer_size(num_key_ids: u32) -> (r: Option<u32>)
    ensures
        num_key_ids * SGX_KEY_ID_SIZE <= u32::MAX ==> r == Some((num_key_ids * SGX_KEY_ID_SIZE) as u32),
        num_key_ids * SGX_KEY_ID_SIZE > u32::MAX ==> r is None,
{
    if num_key_ids as u64 * 256 > u32::MAX as u64 {
        None
    } else {
        Some(num_key_ids * 256)
    }
}

/// Key id `i` of the blob `b`.
pub open spec fn key_id(b: Seq<u8>, i: int) -> Seq<u8> {
    b.subrange(i * SGX_KEY_ID_SIZE, (i + 1) * SGX_KEY_ID_SIZE)
}

/// Splits the service's blob of key ids into whole key ids; a partial id at
/// the end is dropped.
pub fn get_key_ids(error_code: u32, blob: &Vec<u8>) -> (r: Result<Vec<Vec<u8>>, AttestationError>)
    ensures
        error_code != 0 ==> r == Err::<Vec<Vec<u8>>, AttestationError>(AttestationError::Service(error_code)),
        error_code == 0 ==> r is Ok && r->Ok_0@.len() == blob@.len() / (SGX_KEY_ID_SIZE as nat)
            && forall|i: int| 0 <= i < r->Ok_0@.len() ==> (#[trigger] r->Ok_0@[i])@ == key_id(blob@, i),
{
    if error_code != 0 {
        return Err(AttestationError::Service(error_code));
    }
    let len: usize = blob.len();
    let n: usize = len / SGX_KEY_ID_SIZE;
    let mut ids: Vec<Vec<u8>> = Vec::new();
    let mut i: usize = 0;
    while i < n
        invariant
            n == blob@.len() / (SGX_KEY_ID_SIZE as nat),
            len == blob@.len(),
            i <= n,
            ids@.len() == i,
            forall|j: int| 0 <= j < i ==> (#[trigger] ids@[j])@ == key_id(blob@, j),
        decreases n - i,
    {
        assert((i + 1) * 256 <= n * 256) by (nonlinear_arith)
            requires i + 1 <= n;
        assert(n * 256 <= blob@.len()) by (nonlinear_arith)
            requires n == blob@.len() / 256;
        let start: usize = i * 256;
        let mut id: Vec<u8> = Vec::new();
        let mut k: usize = 0;
        while k < SGX_KEY_ID_SIZE
            invariant
                k <= SGX_KEY_ID_SIZE,
                start == i * 256,
                start + 256 <= blob@.len(),
                id@ == blob@.subrange(start as int, start + k),
            decreases SGX_KEY_ID_SIZE - k,
        {
            id.push(blob[start + k]);
            assert(blob@.subrange(start as int, start + k + 1) =~= blob@.subrange(start as int, start + k).push(blob@[start + k]));
            k += 1;
        }
        ids.push(id);
        i += 1;
    }
    Ok(ids)
}

/// The one attestation key id: the service must offer exactly one.
pub fn get_attestation_key_id(num_key_ids: u32, key_ids: &Vec<Vec<u8>>) -> (r: Result<Vec<u8>, AttestationError>)
    ensures
        num_key_ids != 1 ==> r == Err::<Vec<u8>, AttestationError>(AttestationError::UnexpectedKeyCount(num_key_ids as u64)),
        num_key_ids == 1 && key_ids@.len() != 1 ==>
            r == Err::<Vec<u8>, AttestationError>(AttestationError::UnexpectedKeyCount(key_ids@.len() as u64)),
        num_key_ids == 1 && key_ids@.len() == 1 ==> r is Ok && r->Ok_0@ == key_ids@[0]@,
{
    if num_key_ids != 1 {
        return Err(AttestationError::UnexpectedKeyCount(num_key_ids as u64));
    }
    if key_ids.len() != 1 {
        return Err(AttestationError::UnexpectedKeyCount(key_ids.len() as u64));
    }
    let mut id: Vec<u8> = Vec::new();
    let src = &key_ids[0];
    let mut k: usize = 0;
    while k < src.len()
        invariant
            k <= src@.len(),
            id@ == src@.take(k as int),
        decreases src@.len() - k,
    {
        id.push(src[k]);
        assert(src@.take(k + 1) =~= src@.take(k as int).push(src@[k as int]));
        k += 1;
    }
    assert(src@.take(src@.len() as int) =~= src@);
    Ok(id)
}

/// The size of the public key id the service reported.
pub fn get_key_size(error_code: u32, pub_key_id_size: u64) -> (r: Result<u64, AttestationError>)
    ensures
        r == (if error_code != 0 {
            Err::<u64, AttestationError>(AttestationError::Service(error_code))
        } else {
            Ok(pub_key_id_size)
        }),
{
    if error_code != 0 {
        return Err(AttestationError::Service(error_code));
    }
    Ok(pub_key_id_size)
}

/// Copies an answer of exactly `size` bytes into `out`, which must have
/// that size too; returns the number of bytes written.
pub open spec fn spec_fill(size: usize, out_len: int, error_code: u32, answer: Seq<u8>) -> Result<usize, AttestationError> {
    if out_len != size {
        Err(AttestationError::BadOutputSize(out_len as u64))
    } else if error_code != 0 {
        Err(AttestationError::Service(error_code))
    } else if answer.len() != size {
        Err(AttestationError::BadAnswerSize(answer.len() as u64))
    } else {
        Ok(size)
    }
}

fn fill(size: usize, error_code: u32, answer: &Vec<u8>, out: &mut Vec<u8>) -> (r: Result<usize, AttestationError>)
    ensures
        r == spec_fill(size, old(out)@.len() as int, error_code, answer@),
        r is Ok ==> final(out)@ == answer@,
        r is Err ==> final(out)@ == old(out)@,
{
    if out.len() != size {
        return Err(AttestationError::BadOutputSize(out.len() as u64));
    }
    if error_code != 0 {
        return Err(AttestationError::Service(error_code));
    }
    if answer.len() != size {
        return Err(AttestationError::BadAnswerSize(answer.len() as u64));
    }
    crate::mem::memcpy(out, 0, answer, 0, size);
    assert(out@ =~= answer@);
    Ok(size)
}

/// Fills `out` with the quoting enclave's target information.
pub fn get_target_info(error_code: u32, target_info: &Vec<u8>, out: &mut Vec<u8>) -> (r: Result<usize, AttestationError>)
    ensures
        r == spec_fill(SGX_TI_SIZE, old(out)@.len() as int, error_code, target_info@),
        r is Ok ==> final(out)@ == target_info@,
        r is Err ==> final(out)@ == old(out)@,
{
    fill(SGX_TI_SIZE, error_code, target_info, out)
}

/// Fills `out` with the quote the service made.
pub fn get_quote(error_code: u32, quote: &Vec<u8>, out: &mut Vec<u8>) -> (r: Result<usize, AttestationError>)
    ensures
        r == spec_fill(SGX_QUOTE_SIZE, old(out)@.len() as int, error_code, quote@),
        r is Ok ==> final(out)@ == quote@,
        r is Err ==> final(out)@ == old(out)@,
{
    fill(SGX_QUOTE_SIZE, error_code, quote, out)
}

/// The report part of the payload's buffer that a quote is asked for.
pub fn quote_report(report: &Vec<u8>) -> (r: Result<Vec<u8>, AttestationError>)
    ensures
        report@.len() < SGX_REPORT_SIZE ==> r == Err::<Vec<u8>, AttestationError>(AttestationError::ShortReport(report@.len() as u64)),
        report@.len() >= SGX_REPORT_SIZE ==> r is Ok && r->Ok_0@ == report@.take(SGX_REPORT_SIZE as int),
{
    if report.len() < SGX_REPORT_SIZE {
        return Err(AttestationError::ShortReport(report.len() as u64));
    }
    let mut out: Vec<u8> = Vec::new();
    let mut k: usize = 0;
    while k < SGX_REPORT_SIZE
        invariant
            k <= SGX_REPORT_SIZE,
            SGX_REPORT_SIZE <= report@.len(),
            out@ == report@.take(k as int),
        decreases SGX_REPORT_SIZE - k,
    {
        out.push(report[k]);
        assert(report@.take(k + 1) =~= report@.take(k as int).push(report@[k as int]));
        k += 1;
    }
    Ok(out)
}

/// A request to the quoting service, before encoding.
pub enum AesmRequest {
    GetSupportedAttKeyIdNum { timeout: u32 },
    GetSupportedAttKeyIds { timeout: u32, buf_size: u32 },
    InitQuoteEx { timeout: u32, b_pub_key_id: bool, att_key_id: Vec<u8>, size: Option<u64> },
    GetQuoteEx { timeout: u32, report: Vec<u8>, att_key_id: Vec<u8>, buf_size: u32 },
}

impl AesmRequest {
    /// Asks how many attestation keys the service offers.
    pub fn new() -> (r: AesmRequest)
        ensures
            r == (AesmRequest::GetSupportedAttKeyIdNum { timeout: AESM_REQUEST_TIMEOUT }),
    {
        AesmRequest::GetSupportedAttKeyIdNum { timeout: AESM_REQUEST_TIMEOUT }
    }
}

/// Asks for the ids of `num_key_ids` keys; `None` when their buffer size
/// does not fit in 32 bits.
pub fn key_ids_request(num_key_ids: u32) -> (r: Option<AesmRequest>)
    ensures
        num_key_ids * SGX_KEY_ID_SIZE <= u32::MAX ==> r == Some(AesmRequest::GetSupportedAttKeyIds {
            timeout: AESM_REQUEST_TIMEOUT,
            buf_size: (num_key_ids * SGX_KEY_ID_SIZE) as u32,
        }),
        num_key_ids * SGX_KEY_ID_SIZE > u32::MAX ==> r is None,
{
    match key_ids_buffer_size(num_key_ids) {
        Some(b) => Some(AesmRequest::GetSupportedAttKeyIds { timeout: AESM_REQUEST_TIMEOUT, buf_size: b }),
        None => None,
    }
}

/// Asks for the size of the public key id of key `akid`.
pub fn key_size_request(akid: Vec<u8>) -> (r: AesmRequest)
    ensures
        r matches AesmRequest::InitQuoteEx { timeout, b_pub_key_id, att_key_id, size }
            && timeout == AESM_REQUEST_TIMEOUT && !b_pub_key_id && att_key_id@ == akid@ && size is None,
{
    AesmRequest::InitQuoteEx { timeout: AESM_REQUEST_TIMEOUT, b_pub_key_id: false, att_key_id: akid, size: None }
}

/// Asks for the quoting enclave's target information with key `akid`.
pub fn target_info_request(akid: Vec<u8>, size: u64) -> (r: AesmRequest)
    ensures
        r matches AesmRequest::InitQuoteEx { timeout, b_pub_key_id, att_key_id, size: sz }
            && timeout == AESM_REQUEST_TIMEOUT && b_pub_key_id && att_key_id@ == akid@ && sz == Some(size),
{
    AesmRequest::InitQuoteEx { timeout: AESM_REQUEST_TIMEOUT, b_pub_key_id: true, att_key_id: akid, size: Some(size) }
}

/// Asks for a quote of the report at the start of `report`, with key `akid`.
pub fn quote_request(report: &Vec<u8>, akid: Vec<u8>) -> (r: Result<AesmRequest, AttestationError>)
    ensures
        report@.len() < SGX_REPORT_SIZE ==> r == Err::<AesmRequest, AttestationError>(
            AttestationError::ShortReport(report@.len() as u64)),
        report@.len() >= SGX_REPORT_SIZE ==> (r matches Ok(AesmRequest::GetQuoteEx { timeout, report: rep, att_key_id, buf_size })
            && timeout == AESM_REQUEST_TIMEOUT && rep@ == report@.take(SGX_REPORT_SIZE as int)
            && att_key_id@ == akid@ && buf_size == SGX_QUOTE_SIZE),
{
    match quote_report(report) {
        Ok(rep) => Ok(AesmRequest::GetQuoteEx {
            timeout: AESM_REQUEST_TIMEOUT,
            report: rep,
            att_key_id: akid,
            buf_size: SGX_QUOTE_SIZE as u32,
        }),
        Err(e) => Err(e),
    }
}

/// The four little-endian bytes of `v`.
pub open spec fn le32(v: u32) -> Seq<u8> {
    seq![(v % 0x100) as u8, ((v / 0x100) % 0x100) as u8, ((v / 0x1_0000) % 0x100) as u8, (v / 0x100_0000) as u8]
}

/// Frames an encoded request for the service's socket: its length as four
/// little-endian bytes, then the request. `None` when it is too long.
pub fn frame_request(body: &Vec<u8>) -> (r: Option<Vec<u8>>)
    ensures
        body@.len() <= u32::MAX ==> r is Some && r->Some_0@ == le32(body@.len() as u32) + body@,
        body@.len() > u32::MAX ==> r is None,
{
    if body.len() as u64 > u32::MAX as u64 {
        return None;
    }
    let n: u32 = body.len() as u32;
    let mut out: Vec<u8> = Vec::new();
    out.push((n % 0x100) as u8);
    out.push(((n / 0x100) % 0x100) as u8);
    out.push(((n / 0x1_0000) % 0x100) as u8);
    out.push((n / 0x100_0000) as u8);
    let ghost head = out@;
    assert(head =~= le32(n));
    let mut k: usize = 0;
    while k < body.len()
        invariant
            k <= body@.len(),
            out@ == head + body@.take(k as int),
        decreases body@.len() - k,
    {
        out.push(body[k]);
        assert(body@.take(k + 1) =~= body@.take(k as int).push(body@[k as int]));
        k += 1;
    }
    assert(body@.take(body@.len() as int) =~= body@);
    Some(out)
}

/// The attestation key id that the service's first two answers give.
pub open spec fn spec_attestation_key(num: (u32, u32), ids_code: u32, ids: Seq<u8>) -> Result<Seq<u8>, AttestationError> {
    if num.0 != 0 {
        Err(AttestationError::Service(num.0))
    } else if num.1 != 1 {
        Err(AttestationError::UnexpectedKeyCount(num.1 as u64))
    } else if ids_code != 0 {
        Err(AttestationError::Service(ids_code))
    } else if ids.len() / (SGX_KEY_ID_SIZE as nat) != 1 {
        Err(AttestationError::UnexpectedKeyCount((ids.len() / (SGX_KEY_ID_SIZE as nat)) as u64))
    } else {
        Ok(key_id(ids, 0))
    }
}

/// What a payload's attestation request asks for.
#[derive(Clone, Copy, Debug, PartialEq, Eq, Structural)]
pub enum AttestationKind {
    /// The quoting enclave's target information (null nonce).
    TargetInfo,
    /// A quote of the payload's report.
    Quote,
}

pub open spec fn spec_plan(nonce: u64, report_len: int, out_len: int) -> Result<AttestationKind, AttestationError> {
    if nonce == 0 {
        if out_len != SGX_TI_SIZE {
            Err(AttestationError::BadOutputSize(out_len as u64))
        } else {
            Ok(AttestationKind::TargetInfo)
        }
    } else if out_len != SGX_QUOTE_SIZE {
        Err(AttestationError::BadOutputSize(out_len as u64))
    } else if report_len < SGX_REPORT_SIZE {
        Err(AttestationError::ShortReport(report_len as u64))
    } else {
        Ok(AttestationKind::Quote)
    }
}

/// Decides, before any request goes to the quoting service, what a
/// payload's attestation request asks for; a wrong output buffer or a short
/// report is refused here, so no request is sent for it.
pub fn plan_attestation(nonce: u64, report_len: usize, out_len: usize) -> (r: Result<AttestationKind, AttestationError>)
    ensures
        r == spec_plan(nonce, report_len as int, out_len as int),
{
    if nonce == 0 {
        if out_len != SGX_TI_SIZE {
            return Err(AttestationError::BadOutputSize(out_len as u64));
        }
        Ok(AttestationKind::TargetInfo)
    } else if out_len != SGX_QUOTE_SIZE {
        Err(AttestationError::BadOutputSize(out_len as u64))
    } else if report_len < SGX_REPORT_SIZE {
        Err(AttestationError::ShortReport(report_len as u64))
    } else {
        Ok(AttestationKind::Quote)
    }
}

/// Answers a payload's attestation request: with a null `nonce`, the
/// quoting enclave's target information; otherwise a quote of the report in
/// `report`. The output buffer and report are checked first, as
/// `plan_attestation` does before anything is sent. The service's answers
/// come in as (error code, value) pairs: the key count, the key ids, the
/// key size, and the final answer.
pub fn get_attestation(
    nonce: u64,
    report: &Vec<u8>,
    key_id_num: (u32, u32),
    key_ids: (u32, &Vec<u8>),
    key_size: (u32, u64),
    answer: (u32, &Vec<u8>),
    out: &mut Vec<u8>,
) -> (r: Result<usize, AttestationError>)
    ensures
        r is Ok ==> final(out)@ == answer.1@,
        r is Err ==> final(out)@ == old(out)@,
        match spec_plan(nonce, report@.len() as int, old(out)@.len() as int) {
            Err(e) => r == Err::<usize, AttestationError>(e),
            Ok(kind) => match spec_attestation_key(key_id_num, key_ids.0, key_ids.1@) {
                Err(e) => r == Err::<usize, AttestationError>(e),
                Ok(_) => if kind == AttestationKind::TargetInfo {
                    if key_size.0 != 0 {
                        r == Err::<usize, AttestationError>(AttestationError::Service(key_size.0))
                    } else {
                        r == spec_fill(SGX_TI_SIZE, old(out)@.len() as int, answer.0, answer.1@)
                    }
                } else {
                    r == spec_fill(SGX_QUOTE_SIZE, old(out)@.len() as int, answer.0, answer.1@)
                },
            },
        },
{
    let kind = match plan_attestation(nonce, report.len(), out.len()) {
        Ok(k) => k,
        Err(e) => {
            return Err(e);
        },
    };
    let num = match get_key_id_num(key_id_num.0, key_id_num.1) {
        Ok(n) => n,
        Err(e) => {
            return Err(e);
        },
    };
    if num != 1 {
        return Err(AttestationError::UnexpectedKeyCount(num as u64));
    }
    let ids = match get_key_ids(key_ids.0, key_ids.1) {
        Ok(ids) => ids,
        Err(e) => {
            return Err(e);
        },
    };
    let _akid = match get_attestation_key_id(num, &ids) {
        Ok(a) => a,
        Err(e) => {
            return Err(e);
        },
    };
    match kind {
        AttestationKind::TargetInfo => {
            match get_key_size(key_size.0, key_size.1) {
                Ok(_) => {},
                Err(e) => {
                    return Err(e);
                },
            }
            get_target_info(answer.0, answer.1, out)
        },
        AttestationKind::Quote => get_quote(answer.0, answer.1, out),
    }
}

} // verus!
