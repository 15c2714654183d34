//! The life of a binary on the server: which steps bring it from its current
//! state to the end of processing, how its content is cut into parts, and what
//! a round of signing reports.
use vstd::prelude::*;
use crate::options::GlobalOptions;
use crate::text::{chars_of, extend_str, join_strings, join_text, string_of, views};

verus! {

/// The state of a binary on the server.
#[derive(Clone, Copy, PartialEq, Eq, Debug, Structural)]
pub enum BinaryState {
    Destroyed,
    Hashable,
    Hashing,
    Signable,
    Signed,
    Uploadable,
}

/// A binary state as named on the command line.
#[derive(Clone, Copy, PartialEq, Eq, Debug, Structural)]
pub enum ArgBinaryState {
    Destroyed,
    Hashable,
    Hashing,
    Signable,
    Signed,
    Uploadable,
}

/// The server state a command-line state names.
pub open spec fn state_of_arg(a: ArgBinaryState) -> BinaryState {
    match a {
        ArgBinaryState::Destroyed => BinaryState::Destroyed,
        ArgBinaryState::Hashable => BinaryState::Hashable,
        ArgBinaryState::Hashing => BinaryState::Hashing,
        ArgBinaryState::Signable => BinaryState::Signable,
        ArgBinaryState::Signed => BinaryState::Signed,
        ArgBinaryState::Uploadable => BinaryState::Uploadable,
    }
}

impl From<ArgBinaryState> for BinaryState {
    fn from(other: ArgBinaryState) -> (s: BinaryState) {
        match other {
            ArgBinaryState::Destroyed => BinaryState::Destroyed,
            ArgBinaryState::Hashable => BinaryState::Hashable,
            ArgBinaryState::Hashing => BinaryState::Hashing,
            ArgBinaryState::Signable => BinaryState::Signable,
            ArgBinaryState::Signed => BinaryState::Signed,
            ArgBinaryState::Uploadable => BinaryState::Uploadable,
        }
    }
}

impl vstd::std_specs::convert::FromSpecImpl<ArgBinaryState> for BinaryState {
    open spec fn obeys_from_spec() -> bool {
        true
    }

    open spec fn from_spec(v: ArgBinaryState) -> BinaryState {
        state_of_arg(v)
    }
}

/// The position of a state in the life of a binary: uploaded, then hashed, then
/// signed; a destroyed binary is past all of them.
pub open spec fn rank(s: BinaryState) -> int {
    match s {
        BinaryState::Uploadable => 0,
        BinaryState::Hashable => 1,
        BinaryState::Hashing => 2,
        BinaryState::Signable => 3,
        BinaryState::Signed => 4,
        BinaryState::Destroyed => 5,
    }
}

/// One step of processing a binary.
#[derive(Clone, Copy, PartialEq, Eq, Debug, Structural)]
pub enum ProcessStep {
    /// Upload the parts of the content that the server does not hold yet.
    UploadParts,
    /// Ask the server to move the binary to a state.
    ChangeState(BinaryState),
    /// Poll the server until hashing is done and the binary is signable.
    WaitForSignable,
    /// Create the binary's signatures.
    Sign,
}

/// Why a binary cannot be processed.
#[derive(Clone, Copy, PartialEq, Eq, Debug, Structural)]
pub enum ProcessError {
    /// The binary awaits its content, and none was given.
    ContentRequired,
}

impl ProcessError {
    /// The message shown for the error.
    pub fn message(&self) -> (s: String)
        ensures
            s@ == "Binary content is required for Uploadable state"@,
    {
        String::from_str("Binary content is required for Uploadable state")
    }
}

/// The steps that follow hashing: with signing, wait for the server to finish
/// hashing, sign, and mark the binary signed.
pub open spec fn signing_tail(signing: bool) -> Seq<ProcessStep> {
    if signing {
        seq![ProcessStep::WaitForSignable, ProcessStep::Sign, ProcessStep::ChangeState(BinaryState::Signed)]
    } else {
        Seq::empty()
    }
}

/// The steps that take a binary in `state` through processing, given whether
/// its content is at hand and whether signatures are to be made.
pub open spec fn spec_plan(state: BinaryState, has_content: bool, signing: bool) -> Result<Seq<ProcessStep>, ProcessError> {
    match state {
        BinaryState::Uploadable => if !has_content {
            Err(ProcessError::ContentRequired)
        } else {
            Ok(seq![
                ProcessStep::UploadParts,
                ProcessStep::ChangeState(BinaryState::Hashable),
                ProcessStep::ChangeState(BinaryState::Hashing),
            ] + signing_tail(signing))
        },
        BinaryState::Hashable => Ok(seq![ProcessStep::ChangeState(BinaryState::Hashing)] + signing_tail(signing)),
        BinaryState::Hashing => Ok(signing_tail(signing)),
        BinaryState::Signable => Ok(
            if signing {
                seq![ProcessStep::Sign, ProcessStep::ChangeState(BinaryState::Signed)]
            } else {
                Seq::empty()
            },
        ),
        _ => Ok(Seq::empty()),
    }
}

fn push_signing_tail(steps: &mut Vec<ProcessStep>, signing: bool)
    ensures
        final(steps)@ == old(steps)@ + signing_tail(signing),
{
    if signing {
        steps.push(ProcessStep::WaitForSignable);
        steps.push(ProcessStep::Sign);
        steps.push(ProcessStep::ChangeState(BinaryState::Signed));
    }
    assert(final(steps)@ =~= old(steps)@ + signing_tail(signing)) by {
        if signing {
            assert(steps@ =~= old(steps)@ + signing_tail(signing));
        } else {
            assert(steps@ =~= old(steps)@ + signing_tail(signing));
        }
    }
}

/// The steps that take a binary in `state` through processing.
pub fn plan_processing(state: BinaryState, has_content: bool, signing: bool) -> (r: Result<Vec<ProcessStep>, ProcessError>)
    ensures
        match r {
            Ok(v) => spec_plan(state, has_content, signing) == Ok::<Seq<ProcessStep>, ProcessError>(v@),
            Err(e) => spec_plan(state, has_content, signing) == Err::<Seq<ProcessStep>, ProcessError>(e),
        },
{
    let mut steps: Vec<ProcessStep> = Vec::new();
    match state {
        BinaryState::Uploadable => {
            if !has_content {
                return Err(ProcessError::ContentRequired);
            }
            steps.push(ProcessStep::UploadParts);
            steps.push(ProcessStep::ChangeState(BinaryState::Hashable));
            steps.push(ProcessStep::ChangeState(BinaryState::Hashing));
            push_signing_tail(&mut steps, signing);
            assert(steps@ =~= seq![
                ProcessStep::UploadParts,
                ProcessStep::ChangeState(BinaryState::Hashable),
                ProcessStep::ChangeState(BinaryState::Hashing),
            ] + signing_tail(signing));
        },
        BinaryState::Hashable => {
            steps.push(ProcessStep::ChangeState(BinaryState::Hashing));
            push_signing_tail(&mut steps, signing);
            assert(steps@ =~= seq![ProcessStep::ChangeState(BinaryState::Hashing)] + signing_tail(signing));
        },
        BinaryState::Hashing => {
            push_signing_tail(&mut steps, signing);
            assert(steps@ =~= signing_tail(signing));
        },
        BinaryState::Signable => {
            if signing {
                steps.push(ProcessStep::Sign);
                steps.push(ProcessStep::ChangeState(BinaryState::Signed));
            }
            assert(steps@ =~= (if signing {
                seq![ProcessStep::Sign, ProcessStep::ChangeState(BinaryState::Signed)]
            } else {
                Seq::<ProcessStep>::empty()
            }));
        },
        _ => {
            assert(steps@ =~= Seq::<ProcessStep>::empty());
        },
    }
    Ok(steps)
}

/// The state a binary is in once a step has been carried out.
pub open spec fn after_step(s: BinaryState, step: ProcessStep) -> BinaryState {
    match step {
        ProcessStep::ChangeState(t) => t,
        ProcessStep::WaitForSignable => BinaryState::Signable,
        _ => s,
    }
}

/// The state a binary is in once the steps have been carried out in order.
pub open spec fn after_steps(s: BinaryState, steps: Seq<ProcessStep>) -> BinaryState
    decreases steps.len(),
{
    if steps.len() == 0 {
        s
    } else {
        after_steps(after_step(s, steps[0]), steps.drop_first())
    }
}

/// Whether no step moves the binary back to an earlier state.
pub open spec fn never_backward(s: BinaryState, steps: Seq<ProcessStep>) -> bool
    decreases steps.len(),
{
    if steps.len() == 0 {
        true
    } else {
        rank(s) <= rank(after_step(s, steps[0])) && never_backward(after_step(s, steps[0]), steps.drop_first())
    }
}

/// Whether signing happens only while the binary is signable.
pub open spec fn signs_only_when_signable(s: BinaryState, steps: Seq<ProcessStep>) -> bool
    decreases steps.len(),
{
    if steps.len() == 0 {
        true
    } else {
        (steps[0] == ProcessStep::Sign ==> s == BinaryState::Signable) && signs_only_when_signable(
            after_step(s, steps[0]),
            steps.drop_first(),
        )
    }
}

/// Where processing leaves a binary: signed when signatures are made, hashing
/// when its content still had to be uploaded or hashed, else where it was.
pub open spec fn processed_state(state: BinaryState, signing: bool) -> BinaryState {
    match state {
        BinaryState::Uploadable | BinaryState::Hashable | BinaryState::Hashing => if signing {
            BinaryState::Signed
        } else {
            BinaryState::Hashing
        },
        BinaryState::Signable => if signing {
            BinaryState::Signed
        } else {
            BinaryState::Signable
        },
        _ => state,
    }
}

proof fn lemma_tail_facts(s: BinaryState, signing: bool)
    requires
        rank(s) <= 2,
    ensures
        after_steps(s, signing_tail(signing)) == (if signing { BinaryState::Signed } else { s }),
        never_backward(s, signing_tail(signing)),
        signs_only_when_signable(s, signing_tail(signing)),
{
    let t = signing_tail(signing);
    reveal_with_fuel(after_steps, 4);
    reveal_with_fuel(never_backward, 4);
    reveal_with_fuel(signs_only_when_signable, 4);
    if signing {
        assert(t.drop_first() =~= seq![ProcessStep::Sign, ProcessStep::ChangeState(BinaryState::Signed)]);
        assert(t.drop_first().drop_first() =~= seq![ProcessStep::ChangeState(BinaryState::Signed)]);
        assert(t.drop_first().drop_first().drop_first() =~= Seq::<ProcessStep>::empty());
    }
}

/// Processing never moves a binary back to an earlier state, signs it only while
/// it is signable, and leaves it in `processed_state`.
pub proof fn lemma_plan_moves_forward(state: BinaryState, has_content: bool, signing: bool)
    requires
        spec_plan(state, has_content, signing) is Ok,
    ensures
        never_backward(state, spec_plan(state, has_content, signing)->Ok_0),
        signs_only_when_signable(state, spec_plan(state, has_content, signing)->Ok_0),
        after_steps(state, spec_plan(state, has_content, signing)->Ok_0) == processed_state(state, signing),
{
    let steps = spec_plan(state, has_content, signing)->Ok_0;
    reveal_with_fuel(after_steps, 4);
    reveal_with_fuel(never_backward, 4);
    reveal_with_fuel(signs_only_when_signable, 4);
    match state {
        BinaryState::Uploadable => {
            let head = seq![
                ProcessStep::UploadParts,
                ProcessStep::ChangeState(BinaryState::Hashable),
                ProcessStep::ChangeState(BinaryState::Hashing),
            ];
            lemma_tail_facts(BinaryState::Hashing, signing);
            assert(steps.drop_first() =~= seq![
                ProcessStep::ChangeState(BinaryState::Hashable),
                ProcessStep::ChangeState(BinaryState::Hashing),
            ] + signing_tail(signing));
            assert(steps.drop_first().drop_first() =~= seq![ProcessStep::ChangeState(BinaryState::Hashing)]
                + signing_tail(signing));
            assert(steps.drop_first().drop_first().drop_first() =~= signing_tail(signing));
        },
        BinaryState::Hashable => {
            lemma_tail_facts(BinaryState::Hashing, signing);
            assert(steps.drop_first() =~= signing_tail(signing));
        },
        BinaryState::Hashing => {
            lemma_tail_facts(BinaryState::Hashing, signing);
        },
        BinaryState::Signable => {
            if signing {
                assert(steps.drop_first() =~= seq![ProcessStep::ChangeState(BinaryState::Signed)]);
                assert(steps.drop_first().drop_first() =~= Seq::<ProcessStep>::empty());
            }
        },
        _ => {},
    }
}

/// Seconds between two polls for a binary to become signable.
pub const SIGNABLE_POLL_DELAY_SECS: u64 = 10;

/// How many times the poll for a signable binary is repeated before giving up.
pub const SIGNABLE_POLL_RETRIES: u32 = 30;

/// What to do after polling the server for a binary waiting to become signable.
#[derive(Debug, PartialEq, Eq)]
pub enum PollAction {
    /// The binary is signable.
    Ready,
    /// Poll again after this many seconds.
    RetryAfterSeconds(u64),
    /// Stop waiting; the message says why the last poll failed.
    GiveUp(String),
}

/// Waiting for the server to finish hashing a binary: how many polls were
/// repeated so far.
pub struct SignableWait {
    pub retries: u32,
}

impl SignableWait {
    /// A wait before the first poll.
    pub fn new() -> (w: Self)
        ensures
            w.retries == 0,
    {
        SignableWait { retries: 0 }
    }

    /// Takes the state the server reported for the binary (none when it was not
    /// found): a signable binary ends the wait; otherwise the poll is repeated
    /// after the delay, up to the retry limit, after which the wait gives up with
    /// the reason of the last poll.
    pub fn on_poll(&mut self, found: Option<BinaryState>) -> (a: PollAction)
        ensures
            found == Some(BinaryState::Signable) ==> a == PollAction::Ready && final(self).retries == old(
                self,
            ).retries,
            found != Some(BinaryState::Signable) && old(self).retries < SIGNABLE_POLL_RETRIES ==> a
                == PollAction::RetryAfterSeconds(SIGNABLE_POLL_DELAY_SECS) && final(self).retries == old(self).retries
                + 1,
            found != Some(BinaryState::Signable) && old(self).retries >= SIGNABLE_POLL_RETRIES ==> final(self).retries
                == old(self).retries && (a matches PollAction::GiveUp(m) && m@ == (if found is None {
                "Binary not found during state check"@
            } else {
                "Binary not yet signable"@
            })),
    {
        if found == Some(BinaryState::Signable) {
            return PollAction::Ready;
        }
        if self.retries < SIGNABLE_POLL_RETRIES {
            self.retries = self.retries + 1;
            return PollAction::RetryAfterSeconds(SIGNABLE_POLL_DELAY_SECS);
        }
        match found {
            None => PollAction::GiveUp(String::from_str("Binary not found during state check")),
            Some(_) => PollAction::GiveUp(String::from_str("Binary not yet signable")),
        }
    }
}

/// How one signature is to be made: the keyid or resource name of the signing
/// key, and either a signature computed beforehand or the key to compute it with.
#[derive(Debug)]
pub struct SignatureConfig {
    pub keyid: String,
    /// A signature computed beforehand; empty when it is still to be computed.
    pub signature: String,
    pub signing_key_pair: Option<String>,
    pub signing_key_private: Option<String>,
}

impl SignatureConfig {
    /// A signature that was computed beforehand.
    pub fn pre_computed(keyid: String, signature: String) -> (c: Self)
        ensures
            c.keyid == keyid,
            c.signature == signature,
            c.signing_key_pair is None,
            c.signing_key_private is None,
    {
        SignatureConfig { keyid, signature, signing_key_pair: None, signing_key_private: None }
    }

    /// A signature to compute with a signing key pair of the configuration.
    pub fn from_key_pair(keyid: String, signing_key_pair: String) -> (c: Self)
        ensures
            c.keyid == keyid,
            c.signature@.len() == 0,
            c.signing_key_pair == Some(signing_key_pair),
            c.signing_key_private is None,
    {
        SignatureConfig {
            keyid,
            signature: String::new(),
            signing_key_pair: Some(signing_key_pair),
            signing_key_private: None,
        }
    }

    /// A signature to compute with the private key at a path.
    pub fn from_private_key(keyid: String, signing_key_private: String) -> (c: Self)
        ensures
            c.keyid == keyid,
            c.signature@.len() == 0,
            c.signing_key_pair is None,
            c.signing_key_private == Some(signing_key_private),
    {
        SignatureConfig {
            keyid,
            signature: String::new(),
            signing_key_pair: None,
            signing_key_private: Some(signing_key_private),
        }
    }

    /// Whether the signature is still to be computed.
    pub fn needs_computation(&self) -> (b: bool)
        ensures
            b == (self.signature@.len() == 0),
    {
        self.signature.unicode_len() == 0
    }
}

/// The keyids whose signature could not be made, in order.
pub open spec fn failed_keyids(keyids: Seq<Seq<char>>, succeeded: Seq<bool>) -> Seq<Seq<char>>
    decreases keyids.len(),
{
    if keyids.len() == 0 {
        Seq::empty()
    } else {
        let rest = failed_keyids(keyids.drop_last(), succeeded);
        if succeeded[keyids.len() - 1] {
            rest
        } else {
            rest.push(keyids.last())
        }
    }
}

/// The message for a round of signing in which the keys `failed` failed.
pub open spec fn signing_failure_text(failed: Seq<Seq<char>>) -> Seq<char> {
    "Failed to create signatures for binary (failed keyids: "@ + join_text(failed, ", "@) + ")"@
}

/// What a round of signing reports, given for each signature, in order, its
/// keyid and whether it was made (or found already present): success when every
/// signature was, else the message naming the keyids that failed.
pub fn signing_outcome(keyids: &Vec<String>, succeeded: &Vec<bool>) -> (r: Result<(), String>)
    requires
        keyids.len() == succeeded.len(),
    ensures
        r is Ok <==> (forall|i: int| 0 <= i < succeeded.len() ==> succeeded@[i]),
        r matches Err(m) ==> m@ == signing_failure_text(failed_keyids(views(keyids@), succeeded@)),
{
    let mut failed: Vec<String> = Vec::new();
    let mut i: usize = 0;
    while i < keyids.len()
        invariant
            keyids.len() == succeeded.len(),
            i <= keyids.len(),
            views(failed@) == failed_keyids(views(keyids@).take(i as int), succeeded@),
            (failed@.len() == 0) <==> (forall|j: int| 0 <= j < i ==> succeeded@[j]),
        decreases keyids.len() - i,
    {
        let ghost t = views(keyids@).take(i as int + 1);
        assert(t.drop_last() =~= views(keyids@).take(i as int));
        if !succeeded[i] {
            failed.push(keyids[i].clone());
            assert(views(failed@) =~= failed_keyids(t, succeeded@));
        }
        i = i + 1;
    }
    assert(views(keyids@).take(keyids.len() as int) =~= views(keyids@));
    if failed.len() == 0 {
        Ok(())
    } else {
        let joined = join_strings(&failed, ", ");
        let mut v = chars_of("Failed to create signatures for binary (failed keyids: ");
        extend_str(&mut v, joined.as_str());
        extend_str(&mut v, ")");
        Err(string_of(v.as_slice()))
    }
}

/// The search that finds the signatures a key made of a binary.
pub fn signature_search(binary_prn: &str, keyid: &str) -> (s: String)
    ensures
        s@ == "binary_prn:'"@ + binary_prn@ + "' and signature.signing_key.keyid:'"@ + keyid@ + "'"@,
{
    let mut v = chars_of("binary_prn:'");
    extend_str(&mut v, binary_prn);
    extend_str(&mut v, "' and signature.signing_key.keyid:'");
    extend_str(&mut v, keyid);
    extend_str(&mut v, "'");
    string_of(v.as_slice())
}

/// What processing a binary needs: part size and concurrency of the upload,
/// the options of the command, the content's hash and path where known, and
/// the signatures to make.
pub struct BinaryProcessorConfig {
    pub binary_part_size: Option<u64>,
    pub concurrency: Option<u8>,
    pub global_options: GlobalOptions,
    pub binary_content_hash: Option<String>,
    pub content_path: Option<String>,
    pub signatures: Vec<SignatureConfig>,
}

/// Takes binaries through their states.
pub struct BinaryProcessor {
    pub config: BinaryProcessorConfig,
}

impl BinaryProcessor {
    /// A processor working with the given configuration.
    pub fn new(config: BinaryProcessorConfig) -> (p: Self)
        ensures
            p.config == config,
    {
        BinaryProcessor { config }
    }

    /// Whether signatures are to be made.
    pub fn has_signing_config(&self) -> (b: bool)
        ensures
            b == (self.config.signatures.len() > 0),
    {
        self.config.signatures.len() > 0
    }

    /// The steps that take a binary in `state` through processing, where
    /// `has_content` tells whether its content is at hand.
    pub fn plan(&self, state: BinaryState, has_content: bool) -> (r: Result<Vec<ProcessStep>, ProcessError>)
        ensures
            match r {
                Ok(v) => spec_plan(state, has_content, self.config.signatures.len() > 0)
                    == Ok::<Seq<ProcessStep>, ProcessError>(v@),
                Err(e) => spec_plan(state, has_content, self.config.signatures.len() > 0)
                    == Err::<Seq<ProcessStep>, ProcessError>(e),
            },
    {
        plan_processing(state, has_content, self.has_signing_config())
    }
}

} // verus!
