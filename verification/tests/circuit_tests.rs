use confidential_exchange::circuits::{
    add_together, confidential_deposit_native, deposit_seller_native, deposit_seller_spl,
    finalize_interchain_origin_evm_offer, finalize_intrachain_offer,
    interchain_origin_evm_deposit_seller_spl, relay_offer_clone, DepositInput,
    DepositSellerNativeInput, DepositSellerSPLInput, DepositSplInput, FinalizeInterchainInput,
    FinalizeIntrachainInput, InputValues, RelayOfferInput,
};

#[test]
fn add_together_sums_the_inputs() {
    assert_eq!(add_together(InputValues { v1: 100, v2: 55 }), 155);
    assert_eq!(add_together(InputValues { v1: 0, v2: 0 }), 0);
    // The widened result never wraps.
    assert_eq!(add_together(InputValues { v1: 255, v2: 255 }), 510);
}

#[test]
fn relay_offer_clone_acknowledges_the_hash() {
    let out = relay_offer_clone(RelayOfferInput {
        external_seller_identity_hash: 0xDEADBEEF,
    });
    assert_eq!(out.ack, 0xDEADBEEF);
}

#[test]
fn confidential_deposit_passes_the_amount_through() {
    let out = confidential_deposit_native(DepositInput { amount: 123456 });
    assert_eq!(out.processed_amount, 123456);
}

#[test]
fn deposit_circuits_acknowledge_the_seller_hash() {
    assert_eq!(
        interchain_origin_evm_deposit_seller_spl(DepositSplInput {
            seller_identity_hash: 41,
        })
        .ack,
        41
    );
    assert_eq!(
        deposit_seller_native(DepositSellerNativeInput {
            seller_identity_hash: 42,
        })
        .ack,
        42
    );
    assert_eq!(
        deposit_seller_spl(DepositSellerSPLInput {
            seller_identity_hash: 43,
        })
        .ack,
        43
    );
}

#[test]
fn finalize_circuits_acknowledge_the_buyer_hash() {
    assert_eq!(
        finalize_interchain_origin_evm_offer(FinalizeInterchainInput {
            buyer_identity_hash: 44,
        })
        .ack,
        44
    );
    assert_eq!(
        finalize_intrachain_offer(FinalizeIntrachainInput {
            buyer_identity_hash: 45,
        })
        .ack,
        45
    );
}
