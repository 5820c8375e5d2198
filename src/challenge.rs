use vstd::prelude::*;
use vstd::utf8::encode_utf8;
use crate::error::AgentError;

verus! {

/// The SHA-256 digest of `data`.
pub uninterp spec fn sha256_of(data: Seq<u8>) -> Seq<u8>;

/// Relies on sha2::Sha256 through Digest::digest: the SHA-256 digest of `data`, 32 bytes.
/// Feeding the salt and the blocks one after another into one hasher gives this digest of
/// their concatenation.
#[verifier::external_body]
fn sha256(data: &[u8]) -> (r: Vec<u8>)
    ensures
        r@ == sha256_of(data@),
        r@.len() == 32,
{
    <sha2::Sha256 as sha2::Digest>::digest(data).to_vec()
}

/// The lowercase hexadecimal digit of a nibble.
pub open spec fn hex_digit(n: int) -> char {
    seq!['0', '1', '2', '3', '4', '5', '6', '7', '8', '9', 'a', 'b', 'c', 'd', 'e', 'f'][n]
}

/// Lowercase hexadecimal text of `b`: two digits per byte, high nibble first.
pub open spec fn hex_lower(b: Seq<u8>) -> Seq<char>
    decreases b.len(),
{
    if b.len() == 0 {
        Seq::empty()
    } else {
        hex_lower(b.drop_last()) + seq![hex_digit(b.last() as int / 16), hex_digit(b.last() as int % 16)]
    }
}

proof fn lemma_hex_len(b: Seq<u8>)
    ensures
        hex_lower(b).len() == 2 * b.len(),
    decreases b.len(),
{
    if b.len() > 0 {
        lemma_hex_len(b.drop_last());
    }
}

/// Relies on hex::encode: two lowercase hexadecimal digits per byte, high nibble first.
#[verifier::external_body]
fn to_hex(b: &[u8]) -> (r: String)
    ensures
        r@ == hex_lower(b@),
{
    hex::encode(b)
}

/// A proof-of-storage challenge: the blocks of `cid` at `block_indices`, in that order, are
/// hashed after `salt`.
#[derive(Clone, Debug)]
pub struct ChallengeRequest {
    pub cid: String,
    pub salt: String,
    pub block_indices: Vec<u64>,
}

/// The bytes of the first `n` fetched blocks, one after another.
pub open spec fn block_bytes(fetched: Seq<Result<Vec<u8>, String>>, n: int) -> Seq<u8>
    decreases n,
{
    if n <= 0 || n > fetched.len() {
        Seq::empty()
    } else {
        block_bytes(fetched, n - 1) + match fetched[n - 1] {
            Ok(b) => b@,
            Err(_) => Seq::empty(),
        }
    }
}

/// The first `n` blocks were all fetched.
pub open spec fn fetched_upto(fetched: Seq<Result<Vec<u8>, String>>, n: int) -> bool {
    n <= fetched.len() && forall|i: int| 0 <= i < n ==> (#[trigger] fetched[i]) is Ok
}

/// The proof for `salt` and the block contents `data`: the lowercase hexadecimal SHA-256
/// digest of the salt's UTF-8 bytes followed by the blocks.
pub open spec fn challenge_proof(salt: Seq<char>, data: Seq<u8>) -> Seq<char> {
    hex_lower(sha256_of(encode_utf8(salt) + data))
}

/// What a fetch of block `j` left as the reason of its failure.
pub open spec fn failure_reason(fetched: Seq<Result<Vec<u8>, String>>, j: int) -> Seq<char> {
    if j < fetched.len() {
        match fetched[j] {
            Err(e) => e@,
            Ok(_) => Seq::empty(),
        }
    } else {
        "the block was not fetched"@
    }
}

fn append_bytes(msg: &mut Vec<u8>, b: &Vec<u8>)
    ensures
        final(msg)@ == old(msg)@ + b@,
{
    let mut i: usize = 0;
    while i < b.len()
        invariant
            i <= b.len(),
            msg@ == old(msg)@ + b@.take(i as int),
        decreases b.len() - i,
    {
        msg.push(b[i]);
        assert(b@.take(i + 1) =~= b@.take(i as int).push(b@[i as int]));
        assert(msg@ =~= old(msg)@ + b@.take(i + 1));
        i = i + 1;
    }
    assert(b@.take(i as int) =~= b@);
}

/// Answers a challenge. `running` is whether the node is up; `fetched[i]` is what fetching
/// the block at `req.block_indices[i]` gave, in order, up to the first failure. A node that
/// is down is reported at once; a block that failed, or that was never fetched, aborts the
/// whole challenge with no proof; otherwise the proof covers the salt and every block in order.
pub fn handle_challenge(running: bool, req: &ChallengeRequest, fetched: &Vec<Result<Vec<u8>, String>>) -> (r: Result<String, AgentError>)
    ensures
        !running ==> r == Err::<String, AgentError>(AgentError::NotRunning),
        r matches Ok(p) ==> p@.len() == 64,
        running && fetched_upto(fetched@, req.block_indices@.len() as int) ==> (r matches Ok(p)
            && p@ == challenge_proof(req.salt@, block_bytes(fetched@, req.block_indices@.len() as int))),
        running && !fetched_upto(fetched@, req.block_indices@.len() as int) ==> (r matches Err(
            AgentError::BlockFetch { cid, index, reason },
        ) && exists|j: int|
            0 <= j < req.block_indices@.len() && fetched_upto(fetched@, j) && !fetched_upto(fetched@, j + 1)
                && index == req.block_indices@[j] && cid@ == req.cid@ && reason@ == failure_reason(fetched@, j)),
{
    if !running {
        return Err(AgentError::NotRunning);
    }
    let salt_bytes = req.salt.as_str().as_bytes();
    let mut msg: Vec<u8> = vstd::slice::slice_to_vec(salt_bytes);
    let n = req.block_indices.len();
    let mut i: usize = 0;
    assert(block_bytes(fetched@, 0) =~= Seq::<u8>::empty());
    assert(msg@ =~= encode_utf8(req.salt@) + block_bytes(fetched@, 0));
    while i < n
        invariant
            running,
            n == req.block_indices@.len(),
            i <= n,
            fetched_upto(fetched@, i as int),
            msg@ == encode_utf8(req.salt@) + block_bytes(fetched@, i as int),
        decreases n - i,
    {
        if i >= fetched.len() {
            let cid = req.cid.clone();
            let reason = String::from_str("the block was not fetched");
            proof {
                assert(!fetched_upto(fetched@, i + 1));
                assert(reason@ == failure_reason(fetched@, i as int));
            }
            return Err(AgentError::BlockFetch { cid, index: req.block_indices[i], reason });
        }
        match &fetched[i] {
            Ok(b) => {
                append_bytes(&mut msg, b);
                assert(msg@ =~= encode_utf8(req.salt@) + block_bytes(fetched@, i + 1));
            },
            Err(e) => {
                let cid = req.cid.clone();
                let reason = e.clone();
                proof {
                    assert(!fetched_upto(fetched@, i + 1));
                    assert(reason@ == failure_reason(fetched@, i as int));
                }
                return Err(AgentError::BlockFetch { cid, index: req.block_indices[i], reason });
            },
        }
        i = i + 1;
    }
    let digest = sha256(msg.as_slice());
    proof {
        lemma_hex_len(digest@);
    }
    Ok(to_hex(digest.as_slice()))
}

impl ChallengeRequest {
    /// The block to fetch next, given what the fetches so far gave: the next index in order
    /// while the node is up and every fetch so far succeeded, `None` once all are fetched or
    /// one failed.
    pub fn next_block(&self, running: bool, fetched: &Vec<Result<Vec<u8>, String>>) -> (r: Option<u64>)
        ensures
            r == (if running && fetched@.len() < self.block_indices@.len() && fetched_upto(fetched@, fetched@.len() as int) {
                Some(self.block_indices@[fetched@.len() as int])
            } else {
                None::<u64>
            }),
    {
        if !running || fetched.len() >= self.block_indices.len() {
            return None;
        }
        let mut i: usize = 0;
        while i < fetched.len()
            invariant
                i <= fetched.len(),
                forall|k: int| 0 <= k < i ==> (#[trigger] fetched@[k]) is Ok,
            decreases fetched.len() - i,
        {
            if fetched[i].is_err() {
                return None;
            }
            i = i + 1;
        }
        Some(self.block_indices[fetched.len()])
    }
}

proof fn lemma_hex_digit_injective(x: int, y: int)
    requires
        0 <= x < 16,
        0 <= y < 16,
        hex_digit(x) == hex_digit(y),
    ensures
        x == y,
{
    let t = seq!['0', '1', '2', '3', '4', '5', '6', '7', '8', '9', 'a', 'b', 'c', 'd', 'e', 'f'];
    assert(t[x] == t[y]);
}

proof fn lemma_hex_injective(a: Seq<u8>, b: Seq<u8>)
    requires
        hex_lower(a) == hex_lower(b),
    ensures
        a == b,
    decreases a.len(),
{
    lemma_hex_len(a);
    lemma_hex_len(b);
    if a.len() > 0 {
        let ha = hex_lower(a.drop_last());
        let hb = hex_lower(b.drop_last());
        lemma_hex_len(a.drop_last());
        lemma_hex_len(b.drop_last());
        let n = ha.len() as int;
        assert(hex_lower(a)[n] == hex_lower(b)[n]);
        assert(hex_lower(a)[n + 1] == hex_lower(b)[n + 1]);
        assert(hex_lower(a)[n] == hex_digit(a.last() as int / 16));
        assert(hex_lower(b)[n] == hex_digit(b.last() as int / 16));
        assert(hex_lower(a)[n + 1] == hex_digit(a.last() as int % 16));
        assert(hex_lower(b)[n + 1] == hex_digit(b.last() as int % 16));
        lemma_hex_digit_injective(a.last() as int / 16, b.last() as int / 16);
        lemma_hex_digit_injective(a.last() as int % 16, b.last() as int % 16);
        assert(a.last() == b.last());
        assert(hex_lower(a).take(n) =~= ha);
        assert(hex_lower(b).take(n) =~= hb);
        lemma_hex_injective(a.drop_last(), b.drop_last());
        assert(a =~= a.drop_last().push(a.last()));
        assert(b =~= b.drop_last().push(b.last()));
    } else {
        assert(a =~= b);
    }
}

/// Order sensitivity of challenges, as far as it does not rest on SHA-256: two challenges
/// whose hashed inputs have different digests (as reordered, differing blocks give, barring a
/// collision) get different proof texts, since the hexadecimal writing loses nothing.
pub proof fn law_challenge_proofs_differ(salt1: Seq<char>, data1: Seq<u8>, salt2: Seq<char>, data2: Seq<u8>)
    requires
        sha256_of(encode_utf8(salt1) + data1) != sha256_of(encode_utf8(salt2) + data2),
    ensures
        challenge_proof(salt1, data1) != challenge_proof(salt2, data2),
{
    if challenge_proof(salt1, data1) == challenge_proof(salt2, data2) {
        lemma_hex_injective(sha256_of(encode_utf8(salt1) + data1), sha256_of(encode_utf8(salt2) + data2));
    }
}

/// Determinism of challenges: the same salt over the same block contents in the same order
/// gives the same proof text, whatever else differs between the two requests.
pub proof fn law_challenge_deterministic(
    salt1: Seq<char>,
    fetched1: Seq<Result<Vec<u8>, String>>,
    n1: int,
    salt2: Seq<char>,
    fetched2: Seq<Result<Vec<u8>, String>>,
    n2: int,
)
    requires
        salt1 == salt2,
        block_bytes(fetched1, n1) == block_bytes(fetched2, n2),
    ensures
        challenge_proof(salt1, block_bytes(fetched1, n1)) == challenge_proof(salt2, block_bytes(fetched2, n2)),
{
}

} // verus!
