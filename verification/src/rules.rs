//! The validation rules among the on-chain settings.

use vstd::prelude::*;

use crate::block::BlockPair;
use crate::error;
use crate::error::{ServiceError, ValidationError};
use crate::processor::BlockValidation;
use crate::service::{SettingsView, StateViewFactory};
use crate::text;
use crate::text::decimal_text;

verus! {

/// Validates a block against the rules in the state that it starts from. The
/// first block of a chain is subject to none.
pub struct OnChainRulesValidation<VF: StateViewFactory> {
    pub view_factory: VF,
}

/// No state to take the rules from.
pub open spec fn missing_root(block: &BlockPair) -> error::ErrorView {
    error::ErrorView::BlockValidationError(
        "During check of on-chain rules for block "@ + block.id() + ", block num was "@
            + text::decimal(block.header.block_num as nat)
            + ", but missing a previous state root"@,
    )
}

/// The settings of that state cannot be read.
pub open spec fn unreadable_settings(failure: ServiceError) -> error::ErrorView {
    error::ErrorView::BlockValidationError(
        "During validate_on_chain_rules, error creating settings view: "@ + failure.debug@,
    )
}

/// The verdict on a block, by whether it obeys the rules.
pub open spec fn rules_verdict(block: &BlockPair, obeyed: bool) -> Result<(), error::ErrorView> {
    if obeyed {
        Ok(())
    } else {
        Err(
            error::ErrorView::BlockValidationFailure(
                "Block "@ + block.id() + " failed validation rules"@,
            ),
        )
    }
}

/// Whether the settings may bring about this verdict on the block.
pub open spec fn decided_by<S: SettingsView>(
    settings: S,
    block: &BlockPair,
    verdict: Result<(), error::ErrorView>,
) -> bool {
    exists|obeyed: bool| #[trigger]
        call_ensures(
            S::enforce_validation_rules,
            (&settings, &block.header.signer_public_key, &block.block.batches),
            obeyed,
        ) && verdict == rules_verdict(block, obeyed)
}

fn missing_root_error(block: &BlockPair) -> (error: ValidationError)
    ensures
        error@ == missing_root(block),
{
    let mut reason = "During check of on-chain rules for block ".to_owned();
    reason.append(block.block.header_signature.as_str());
    reason.append(", block num was ");
    reason.append(decimal_text(block.header.block_num).as_str());
    reason.append(", but missing a previous state root");
    ValidationError::BlockValidationError(reason)
}

/// Turns the answer of the settings into a verdict on the block.
pub fn judge_rules(block: &BlockPair, obeyed: bool) -> (result: Result<(), ValidationError>)
    ensures
        error::verdict(result) == rules_verdict(block, obeyed),
{
    if obeyed {
        Ok(())
    } else {
        let mut reason = "Block ".to_owned();
        reason.append(block.block.header_signature.as_str());
        reason.append(" failed validation rules");
        Err(ValidationError::BlockValidationFailure(reason))
    }
}

impl<VF: StateViewFactory> OnChainRulesValidation<VF> {
    pub fn new(view_factory: VF) -> (validation: Self)
        ensures
            validation.view_factory == view_factory,
    {
        OnChainRulesValidation { view_factory }
    }

    /// Whether the factory may open these settings of the state with this root.
    pub open spec fn opens(
        &self,
        root: Seq<u8>,
        view: Result<VF::Settings, ServiceError>,
    ) -> bool {
        exists|state_root: &[u8]|
            state_root@ == root && #[trigger] call_ensures(
                VF::create_settings_view,
                (&self.view_factory, state_root),
                view,
            )
    }

    /// Whether the state with this root may bring about this verdict.
    pub open spec fn judges(
        &self,
        block: &BlockPair,
        root: Seq<u8>,
        verdict: Result<(), error::ErrorView>,
    ) -> bool {
        exists|view: Result<VF::Settings, ServiceError>| #[trigger]
            self.opens(root, view) && match view {
                Err(failure) => verdict == Err::<(), error::ErrorView>(
                    unreadable_settings(failure),
                ),
                Ok(settings) => decided_by(settings, block, verdict),
            }
    }
}

impl<VF: StateViewFactory> BlockValidation for OnChainRulesValidation<VF> {
    type ReturnValue = ();

    open spec fn accepts(
        &self,
        block: &BlockPair,
        previous_state_root: Option<Seq<u8>>,
    ) -> bool {
        true
    }

    /// The first block passes. Any other needs a state to start from, whose
    /// settings decide.
    open spec fn permits(
        &self,
        block: &BlockPair,
        previous_state_root: Option<Seq<u8>>,
        result: Result<(), ValidationError>,
    ) -> bool {
        if block.header.block_num == 0 {
            result is Ok
        } else {
            match previous_state_root {
                None => error::verdict(result) == Err::<(), error::ErrorView>(missing_root(block)),
                Some(root) => self.judges(block, root, error::verdict(result)),
            }
        }
    }

    fn validate_block(
        &self,
        block: &BlockPair,
        previous_state_root: Option<&[u8]>,
    ) -> (result: Result<(), ValidationError>) {
        if block.header.block_num == 0 {
            return Ok(());
        }
        let state_root = match previous_state_root {
            Some(state_root) => state_root,
            None => {
                return Err(missing_root_error(block));
            },
        };
        let view = self.view_factory.create_settings_view(state_root);
        assert(self.opens(state_root@, view));
        match view {
            Err(failure) => {
                let mut reason =
                    "During validate_on_chain_rules, error creating settings view: ".to_owned();
                reason.append(failure.debug.as_str());
                Err(ValidationError::BlockValidationError(reason))
            },
            Ok(settings) => {
                let obeyed = settings.enforce_validation_rules(
                    &block.header.signer_public_key,
                    &block.block.batches,
                );
                judge_rules(block, obeyed)
            },
        }
    }
}

} // verus!
