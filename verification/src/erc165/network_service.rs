//! The decisions of asking a contract, one `supportsInterface` call at a time,
//! which NFT interfaces it supports. The calls themselves are made by the caller:
//! each step names the interface id to ask about next, or the outcome.

use vstd::prelude::*;
use super::erc165_interfaces::{
    Erc165Interface, Erc165InterfaceSet, ERC1155, ERC1155_METADATA, ERC165, ERC165N, ERC721,
    ERC721_ENUMERABLE, ERC721_METADATA,
};
use super::errors::Erc165ServiceErrors;
use super::service::Erc165Res;
use crate::ethereum::{checksum_text, lemma_checksum_parses, parse_address_text, to_checksum};

verus! {

/// Which `supportsInterface` question the probe is waiting on.
#[derive(Debug, Clone, Copy, PartialEq, Eq, Structural)]
pub enum ProbeStage {
    Erc165,
    Erc165N,
    Erc721,
    Erc721Metadata,
    Erc721Enumerable,
    Erc1155,
    Erc1155Metadata,
}

/// The interface id asked about at each stage.
pub open spec fn stage_query(stage: ProbeStage) -> u32 {
    match stage {
        ProbeStage::Erc165 => ERC165,
        ProbeStage::Erc165N => ERC165N,
        ProbeStage::Erc721 => ERC721,
        ProbeStage::Erc721Metadata => ERC721_METADATA,
        ProbeStage::Erc721Enumerable => ERC721_ENUMERABLE,
        ProbeStage::Erc1155 => ERC1155,
        ProbeStage::Erc1155Metadata => ERC1155_METADATA,
    }
}

/// What came of asking one contract.
pub enum ProbeOutcome {
    /// The contract implements ERC-165; these are the NFT interfaces it reports.
    Supported(Erc165InterfaceSet),
    /// The contract does not answer `true` to ERC-165 itself; it is left out.
    NotErc165,
    /// A call after the first one failed.
    Failed(Erc165ServiceErrors),
}

/// The mathematical counterpart of [`ProbeOutcome`].
pub enum ProbeOutcomeView {
    Supported(Set<Erc165Interface>),
    NotErc165,
    Failed(Erc165ServiceErrors),
}

impl View for ProbeOutcome {
    type V = ProbeOutcomeView;

    open spec fn view(&self) -> ProbeOutcomeView {
        match self {
            ProbeOutcome::Supported(s) => ProbeOutcomeView::Supported(s@),
            ProbeOutcome::NotErc165 => ProbeOutcomeView::NotErc165,
            ProbeOutcome::Failed(e) => ProbeOutcomeView::Failed(*e),
        }
    }
}

/// The state of asking one contract: the question pending and what was found so far.
pub struct Erc165Probe {
    pub stage: ProbeStage,
    pub found: Erc165InterfaceSet,
}

/// The next move: ask another question, or stop with an outcome.
pub enum ProbeStep {
    Ask { probe: Erc165Probe, interface_id: u32 },
    Done(ProbeOutcome),
}

/// The mathematical counterpart of [`ProbeStep`].
pub enum ProbeStepView {
    Ask { stage: ProbeStage, found: Set<Erc165Interface>, interface_id: u32 },
    Done(ProbeOutcomeView),
}

impl View for ProbeStep {
    type V = ProbeStepView;

    open spec fn view(&self) -> ProbeStepView {
        match self {
            ProbeStep::Ask { probe, interface_id } => ProbeStepView::Ask {
                stage: probe.stage,
                found: probe.found@,
                interface_id: *interface_id,
            },
            ProbeStep::Done(o) => ProbeStepView::Done(o@),
        }
    }
}

/// Asking about `stage` next, having found `found`.
pub open spec fn ask(stage: ProbeStage, found: Set<Erc165Interface>) -> ProbeStepView {
    ProbeStepView::Ask { stage, found, interface_id: stage_query(stage) }
}

/// `found`, with `i` added when `yes`.
pub open spec fn add_if(found: Set<Erc165Interface>, yes: bool, i: Erc165Interface) -> Set<
    Erc165Interface,
> {
    if yes {
        found.insert(i)
    } else {
        found
    }
}

/// The move after a reply at a stage. `None` is a failed call: at the first
/// question it counts as "no", later it fails the whole detection.
pub open spec fn probe_transition(
    stage: ProbeStage,
    found: Set<Erc165Interface>,
    reply: Option<bool>,
) -> ProbeStepView {
    let failed = ProbeStepView::Done(ProbeOutcomeView::Failed(Erc165ServiceErrors::FailedToQueryChain));
    match stage {
        ProbeStage::Erc165 => if reply == Some(true) {
            ask(ProbeStage::Erc165N, found)
        } else {
            ProbeStepView::Done(ProbeOutcomeView::NotErc165)
        },
        ProbeStage::Erc165N => match reply {
            None => failed,
            Some(true) => ProbeStepView::Done(ProbeOutcomeView::Supported(found)),
            Some(false) => ask(ProbeStage::Erc721, found),
        },
        ProbeStage::Erc721 => match reply {
            None => failed,
            Some(true) => ask(ProbeStage::Erc721Metadata, found.insert(Erc165Interface::ERC721)),
            Some(false) => ask(ProbeStage::Erc1155, found),
        },
        ProbeStage::Erc721Metadata => match reply {
            None => failed,
            Some(b) => ask(
                ProbeStage::Erc721Enumerable,
                add_if(found, b, Erc165Interface::ERC721Metadata),
            ),
        },
        ProbeStage::Erc721Enumerable => match reply {
            None => failed,
            Some(b) => ProbeStepView::Done(
                ProbeOutcomeView::Supported(add_if(found, b, Erc165Interface::ERC721Enumerable)),
            ),
        },
        ProbeStage::Erc1155 => match reply {
            None => failed,
            Some(false) => ProbeStepView::Done(ProbeOutcomeView::Supported(found)),
            Some(true) => ask(ProbeStage::Erc1155Metadata, found.insert(Erc165Interface::ERC1155)),
        },
        ProbeStage::Erc1155Metadata => match reply {
            None => failed,
            Some(b) => ProbeStepView::Done(
                ProbeOutcomeView::Supported(add_if(found, b, Erc165Interface::ERC1155Metadata)),
            ),
        },
    }
}

impl Erc165Probe {
    /// The first move: ask whether the contract supports ERC-165 at all.
    pub fn start() -> (step: ProbeStep)
        ensures
            step@ == ask(ProbeStage::Erc165, Set::<Erc165Interface>::empty()),
    {
        ProbeStep::Ask {
            probe: Erc165Probe { stage: ProbeStage::Erc165, found: Erc165InterfaceSet::new() },
            interface_id: ERC165,
        }
    }

    /// The move after the reply to the pending question (`None`: the call failed).
    pub fn on_reply(self, reply: Option<bool>) -> (step: ProbeStep)
        ensures
            step@ == probe_transition(self.stage, self.found@, reply),
    {
        let mut found = self.found;
        match self.stage {
            ProbeStage::Erc165 => {
                if reply == Some(true) {
                    ProbeStep::Ask {
                        probe: Erc165Probe { stage: ProbeStage::Erc165N, found },
                        interface_id: ERC165N,
                    }
                } else {
                    ProbeStep::Done(ProbeOutcome::NotErc165)
                }
            },
            ProbeStage::Erc165N => match reply {
                None => ProbeStep::Done(
                    ProbeOutcome::Failed(Erc165ServiceErrors::FailedToQueryChain),
                ),
                Some(true) => ProbeStep::Done(ProbeOutcome::Supported(found)),
                Some(false) => ProbeStep::Ask {
                    probe: Erc165Probe { stage: ProbeStage::Erc721, found },
                    interface_id: ERC721,
                },
            },
            ProbeStage::Erc721 => match reply {
                None => ProbeStep::Done(
                    ProbeOutcome::Failed(Erc165ServiceErrors::FailedToQueryChain),
                ),
                Some(true) => {
                    found.insert(Erc165Interface::ERC721);
                    ProbeStep::Ask {
                        probe: Erc165Probe { stage: ProbeStage::Erc721Metadata, found },
                        interface_id: ERC721_METADATA,
                    }
                },
                Some(false) => ProbeStep::Ask {
                    probe: Erc165Probe { stage: ProbeStage::Erc1155, found },
                    interface_id: ERC1155,
                },
            },
            ProbeStage::Erc721Metadata => match reply {
                None => ProbeStep::Done(
                    ProbeOutcome::Failed(Erc165ServiceErrors::FailedToQueryChain),
                ),
                Some(b) => {
                    if b {
                        found.insert(Erc165Interface::ERC721Metadata);
                    }
                    ProbeStep::Ask {
                        probe: Erc165Probe { stage: ProbeStage::Erc721Enumerable, found },
                        interface_id: ERC721_ENUMERABLE,
                    }
                },
            },
            ProbeStage::Erc721Enumerable => match reply {
                None => ProbeStep::Done(
                    ProbeOutcome::Failed(Erc165ServiceErrors::FailedToQueryChain),
                ),
                Some(b) => {
                    if b {
                        found.insert(Erc165Interface::ERC721Enumerable);
                    }
                    ProbeStep::Done(ProbeOutcome::Supported(found))
                },
            },
            ProbeStage::Erc1155 => match reply {
                None => ProbeStep::Done(
                    ProbeOutcome::Failed(Erc165ServiceErrors::FailedToQueryChain),
                ),
                Some(false) => ProbeStep::Done(ProbeOutcome::Supported(found)),
                Some(true) => {
                    found.insert(Erc165Interface::ERC1155);
                    ProbeStep::Ask {
                        probe: Erc165Probe { stage: ProbeStage::Erc1155Metadata, found },
                        interface_id: ERC1155_METADATA,
                    }
                },
            },
            ProbeStage::Erc1155Metadata => match reply {
                None => ProbeStep::Done(
                    ProbeOutcome::Failed(Erc165ServiceErrors::FailedToQueryChain),
                ),
                Some(b) => {
                    if b {
                        found.insert(Erc165Interface::ERC1155Metadata);
                    }
                    ProbeStep::Done(ProbeOutcome::Supported(found))
                },
            },
        }
    }
}

/// The outcome of asking a contract that answers `answers(id)` to `supportsInterface(id)`
/// (`None`: the call fails), stated directly:
/// - a contract that does not answer `true` for ERC-165 is not recorded;
/// - one that claims the invalid id `0xffffffff` is recorded with no interfaces;
/// - an ERC-721 contract is recorded with ERC-721 and those of its two extensions it claims;
/// - otherwise an ERC-1155 contract with ERC-1155 and, if claimed, its metadata extension;
/// - otherwise with no interfaces;
/// - and any failed call after the first fails the detection.
pub open spec fn expected_outcome(answers: spec_fn(u32) -> Option<bool>) -> ProbeOutcomeView {
    let failed = ProbeOutcomeView::Failed(Erc165ServiceErrors::FailedToQueryChain);
    if answers(ERC165) != Some(true) {
        ProbeOutcomeView::NotErc165
    } else if answers(ERC165N) is None {
        failed
    } else if answers(ERC165N) == Some(true) {
        ProbeOutcomeView::Supported(Set::empty())
    } else if answers(ERC721) is None {
        failed
    } else if answers(ERC721) == Some(true) {
        if answers(ERC721_METADATA) is None || answers(ERC721_ENUMERABLE) is None {
            failed
        } else {
            ProbeOutcomeView::Supported(
                Set::new(
                    |i: Erc165Interface|
                        i == Erc165Interface::ERC721 || (i == Erc165Interface::ERC721Metadata
                            && answers(ERC721_METADATA) == Some(true)) || (i
                            == Erc165Interface::ERC721Enumerable && answers(ERC721_ENUMERABLE)
                            == Some(true)),
                ),
            )
        }
    } else if answers(ERC1155) is None {
        failed
    } else if answers(ERC1155) == Some(false) {
        ProbeOutcomeView::Supported(Set::empty())
    } else if answers(ERC1155_METADATA) is None {
        failed
    } else {
        ProbeOutcomeView::Supported(
            Set::new(
                |i: Erc165Interface|
                    i == Erc165Interface::ERC1155 || (i == Erc165Interface::ERC1155Metadata
                        && answers(ERC1155_METADATA) == Some(true)),
            ),
        )
    }
}

/// Playing the probe against `answers` from a move, for at most `fuel` more replies.
pub open spec fn play(step: ProbeStepView, answers: spec_fn(u32) -> Option<bool>, fuel: nat) -> Option<
    ProbeOutcomeView,
>
    decreases fuel,
{
    match step {
        ProbeStepView::Done(o) => Some(o),
        ProbeStepView::Ask { stage, found, interface_id } => if fuel == 0 {
            None
        } else {
            play(probe_transition(stage, found, answers(interface_id)), answers, (fuel - 1) as nat)
        },
    }
}

/// Whatever a contract answers, the probe stops within five replies, each time asking
/// the id it names, and its outcome is `expected_outcome(answers)`.
pub proof fn lemma_probe_outcome(answers: spec_fn(u32) -> Option<bool>)
    ensures
        play(ask(ProbeStage::Erc165, Set::empty()), answers, 5) == Some(expected_outcome(answers)),
{
    reveal_with_fuel(play, 6);
    let e = Set::<Erc165Interface>::empty();
    let o = expected_outcome(answers);
    if answers(ERC165) == Some(true) && answers(ERC165N) == Some(false) {
        if answers(ERC721) == Some(true) {
            if answers(ERC721_METADATA) is Some && answers(ERC721_ENUMERABLE) is Some {
                let m = answers(ERC721_METADATA) == Some(true);
                let n = answers(ERC721_ENUMERABLE) == Some(true);
                let got = add_if(
                    add_if(e.insert(Erc165Interface::ERC721), m, Erc165Interface::ERC721Metadata),
                    n,
                    Erc165Interface::ERC721Enumerable,
                );
                assert(o == ProbeOutcomeView::Supported(got)) by {
                    if let ProbeOutcomeView::Supported(want) = o {
                        assert(want =~= got);
                    }
                }
            }
        } else if answers(ERC721) == Some(false) && answers(ERC1155) == Some(true)
            && answers(ERC1155_METADATA) is Some {
            let m = answers(ERC1155_METADATA) == Some(true);
            let got = add_if(e.insert(Erc165Interface::ERC1155), m, Erc165Interface::ERC1155Metadata);
            assert(o == ProbeOutcomeView::Supported(got)) by {
                if let ProbeOutcomeView::Supported(want) = o {
                    assert(want =~= got);
                }
            }
        }
    }
}

/// A recorded set never mixes the two standards, and an extension is only ever
/// recorded together with its base interface.
pub proof fn lemma_recorded_sets_consistent(answers: spec_fn(u32) -> Option<bool>)
    ensures
        expected_outcome(answers) matches ProbeOutcomeView::Supported(s) ==> {
            &&& !(s.contains(Erc165Interface::ERC721) && s.contains(Erc165Interface::ERC1155))
            &&& s.contains(Erc165Interface::ERC721Metadata) ==> s.contains(Erc165Interface::ERC721)
            &&& s.contains(Erc165Interface::ERC721Enumerable) ==> s.contains(
                Erc165Interface::ERC721,
            )
            &&& s.contains(Erc165Interface::ERC1155Metadata) ==> s.contains(
                Erc165Interface::ERC1155,
            )
        },
{
}

/// The interfaces of a supported outcome; none for any other outcome.
pub open spec fn supported_set(o: ProbeOutcomeView) -> Set<Erc165Interface> {
    match o {
        ProbeOutcomeView::Supported(s) => s,
        _ => Set::empty(),
    }
}

/// Detecting `contracts` one after another into `res`, where contract `c` answers
/// `answers(c)`: each probe ends in `expected_outcome` (`lemma_probe_outcome`) and is
/// recorded as `record_outcome` records it; `None` once a detection fails.
pub open spec fn detect_all(
    contracts: Seq<Seq<u8>>,
    answers: spec_fn(Seq<u8>) -> spec_fn(u32) -> Option<bool>,
    res: Map<Seq<char>, Set<Erc165Interface>>,
) -> Option<Map<Seq<char>, Set<Erc165Interface>>>
    decreases contracts.len(),
{
    if contracts.len() == 0 {
        Some(res)
    } else {
        let c = contracts[0];
        match expected_outcome(answers(c)) {
            ProbeOutcomeView::Supported(s) => detect_all(
                contracts.drop_first(),
                answers,
                res.insert(checksum_text(c), s),
            ),
            ProbeOutcomeView::NotErc165 => detect_all(contracts.drop_first(), answers, res),
            ProbeOutcomeView::Failed(_) => None,
        }
    }
}

/// Whether the detection of some contract of the list fails.
pub open spec fn any_detection_fails(
    contracts: Seq<Seq<u8>>,
    answers: spec_fn(Seq<u8>) -> spec_fn(u32) -> Option<bool>,
) -> bool {
    exists|c: Seq<u8>| contracts.contains(c) && #[trigger] expected_outcome(answers(c)) is Failed
}

/// What detection records for a list of contracts: each supporting contract of the
/// list under its checksummed address, with the interfaces it reports.
pub open spec fn detected(
    contracts: Seq<Seq<u8>>,
    answers: spec_fn(Seq<u8>) -> spec_fn(u32) -> Option<bool>,
) -> Map<Seq<char>, Set<Erc165Interface>> {
    Map::new(
        |k: Seq<char>|
            exists|c: Seq<u8>|
                contracts.contains(c) && #[trigger] checksum_text(c) == k && expected_outcome(
                    answers(c),
                ) is Supported,
        |k: Seq<char>| supported_set(expected_outcome(answers(parse_address_text(k).unwrap()))),
    )
}

/// Detecting a list of addresses fails when some contract's detection fails, and
/// otherwise adds `detected` to what was there.
pub proof fn lemma_detect_all(
    contracts: Seq<Seq<u8>>,
    answers: spec_fn(Seq<u8>) -> spec_fn(u32) -> Option<bool>,
    res: Map<Seq<char>, Set<Erc165Interface>>,
)
    requires
        forall|i: int| 0 <= i < contracts.len() ==> (#[trigger] contracts[i]).len() == 20,
    ensures
        detect_all(contracts, answers, res) == if any_detection_fails(contracts, answers) {
            None
        } else {
            Some(res.union_prefer_right(detected(contracts, answers)))
        },
    decreases contracts.len(),
{
    if contracts.len() == 0 {
        assert(!any_detection_fails(contracts, answers));
        assert(detected(contracts, answers) =~= Map::empty());
        assert(res.union_prefer_right(Map::empty()) =~= res);
    } else {
        let c = contracts[0];
        let rest = contracts.drop_first();
        assert(contracts[0].len() == 20);
        assert forall|x: Seq<u8>| contracts.contains(x) <==> (x == c || rest.contains(x)) by {
            if contracts.contains(x) {
                let i = choose|i: int| 0 <= i < contracts.len() && contracts[i] == x;
                if i > 0 {
                    assert(rest[i - 1] == x);
                }
            }
            if x == c {
                assert(contracts[0] == x);
            }
            if rest.contains(x) {
                let j = choose|j: int| 0 <= j < rest.len() && rest[j] == x;
                assert(contracts[j + 1] == x);
            }
        }
        let o = expected_outcome(answers(c));
        match o {
            ProbeOutcomeView::Failed(_) => {
                assert(any_detection_fails(contracts, answers));
            },
            ProbeOutcomeView::NotErc165 => {
                lemma_detect_all(rest, answers, res);
                assert(any_detection_fails(contracts, answers) == any_detection_fails(rest, answers));
                assert(detected(contracts, answers) =~= detected(rest, answers));
            },
            ProbeOutcomeView::Supported(s) => {
                let k = checksum_text(c);
                lemma_detect_all(rest, answers, res.insert(k, s));
                lemma_checksum_parses(c);
                assert(any_detection_fails(contracts, answers) == any_detection_fails(rest, answers));
                let d = detected(rest, answers);
                assert(detected(contracts, answers) =~= d.insert(k, s));
                assert(res.insert(k, s).union_prefer_right(d) =~= res.union_prefer_right(
                    d.insert(k, s),
                ));
            },
        }
    }
}

/// Detection does not depend on the order or repetition of the contracts asked
/// about: two lists of the same addresses both fail, or both record the same map.
pub proof fn lemma_detection_ignores_order(
    p: Seq<Seq<u8>>,
    q: Seq<Seq<u8>>,
    answers: spec_fn(Seq<u8>) -> spec_fn(u32) -> Option<bool>,
)
    requires
        forall|i: int| 0 <= i < p.len() ==> (#[trigger] p[i]).len() == 20,
        forall|i: int| 0 <= i < q.len() ==> (#[trigger] q[i]).len() == 20,
        forall|c: Seq<u8>| p.contains(c) <==> q.contains(c),
    ensures
        detect_all(p, answers, Map::empty()) == detect_all(q, answers, Map::empty()),
{
    lemma_detect_all(p, answers, Map::empty());
    lemma_detect_all(q, answers, Map::empty());
    assert(any_detection_fails(p, answers) == any_detection_fails(q, answers));
    assert(detected(p, answers) =~= detected(q, answers));
}

/// Adds what asking `contract` found to `res`: a supported contract under its
/// checksummed address, nothing for a non-ERC-165 contract, and the error of a
/// failed detection (which ends the whole batch).
pub fn record_outcome(res: &mut Erc165Res, contract: &[u8; 20], outcome: ProbeOutcome) -> (r: Result<
    (),
    Erc165ServiceErrors,
>)
    ensures
        match outcome@ {
            ProbeOutcomeView::Supported(s) => r is Ok && final(res)@ == old(res)@.insert(
                checksum_text(contract@),
                s,
            ),
            ProbeOutcomeView::NotErc165 => r is Ok && final(res)@ == old(res)@,
            ProbeOutcomeView::Failed(e) => r == Err::<(), Erc165ServiceErrors>(e) && final(res)@
                == old(res)@,
        },
{
    match outcome {
        ProbeOutcome::Supported(set) => {
            res.insert(to_checksum(contract), set);
            Ok(())
        },
        ProbeOutcome::NotErc165 => Ok(()),
        ProbeOutcome::Failed(e) => Err(e),
    }
}

} // verus!
