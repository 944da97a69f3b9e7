use perpetuals::liquidation::Verdict;
use perpetuals::mock::{
    balance_of_treasury, Bank, BankError, DispatchError, ExtBuilder, MockPriceSource, Origin, ALICE,
    BOB, CHARLIE, GEORGES, POOL_ACCOUNT, TREASURY_ACCOUNT,
};
use perpetuals::table::Table;
use perpetuals::CurrencyId::{DOT, KUSD, LDOT};
use perpetuals::{
    AssetParams, Change, Error, Event, GenesisConfig, MintOutcome, Pallet, Price, PriceProvider, Ratio,
};
use sp_arithmetic::{FixedPointNumber, FixedU128, PerThing, Permill, Perquintill};

#[test]
fn fee_rounds_up_and_comes_out_of_the_deposit() {
    let mut rt = ExtBuilder::default().build();
    assert_eq!(
        rt.set_global_params(
            Origin::signed(ALICE),
            DOT,
            Change::NoChange,
            Change::NoChange,
            Change::NewValue(Ratio::from_parts(5000))
        ),
        Ok(())
    );
    assert_eq!(rt.pallet.get_needed_im(&rt.prices, ALICE, DOT, 100), Ok((20i128, 100i128)));
    assert_eq!(
        rt.pallet.check_mint(&rt.prices, ALICE, DOT, 100, 201),
        Ok(MintOutcome { collateral: 200, fee: 1, margin: 200, balance: 100 })
    );
    assert_eq!(rt.mint(Origin::signed(ALICE), DOT, 100i128, 201i128), Ok(()));
    assert_eq!(rt.margin(&ALICE), 200u128);
    assert_eq!(rt.balances(DOT, &ALICE), 100i128);
    assert_eq!(rt.total_collateral_balance(), 200u128);
    assert_eq!(balance_of_treasury(&rt), 1u128);
    assert_eq!(rt.total_treasury_balance(&ALICE), 999_999_999_999_999_799u128);
}

#[test]
fn equal_sides_are_matched_in_full() {
    let mut rt = ExtBuilder::default().build();
    assert_eq!(rt.mint(Origin::signed(ALICE), DOT, 100i128, 21i128), Ok(()));
    assert_eq!(rt.mint(Origin::signed(BOB), DOT, -100i128, 21i128), Ok(()));
    assert_eq!(rt.inventory(DOT, &ALICE), 0i128);
    rt.match_interest(DOT);
    assert_eq!(rt.pallet.open_interest(DOT), (100u128, 100u128));
    assert_eq!(rt.inventory(DOT, &ALICE), 100i128);
    assert_eq!(rt.inventory(DOT, &BOB), -100i128);
}

#[test]
fn larger_side_is_matched_pro_rata_rounded_down() {
    let mut rt = ExtBuilder::default().build();
    assert_eq!(rt.mint(Origin::signed(ALICE), DOT, 100i128, 21i128), Ok(()));
    assert_eq!(rt.mint(Origin::signed(CHARLIE), DOT, 100i128, 21i128), Ok(()));
    assert_eq!(rt.mint(Origin::signed(BOB), DOT, -100i128, 21i128), Ok(()));
    rt.match_interest(DOT);
    assert_eq!(rt.inventory(DOT, &BOB), -100i128);
    assert_eq!(rt.inventory(DOT, &ALICE), 50i128);
    assert_eq!(rt.inventory(DOT, &CHARLIE), 50i128);
    assert_eq!(rt.inventory(LDOT, &ALICE), 0i128);
}

#[test]
fn truncated_share_can_lose_a_whole_unit() {
    let mut rt = ExtBuilder::default().build();
    assert_eq!(rt.mint(Origin::signed(ALICE), DOT, 300i128, 100i128), Ok(()));
    assert_eq!(rt.mint(Origin::signed(BOB), DOT, -100i128, 21i128), Ok(()));
    rt.match_interest(DOT);
    assert_eq!(rt.inventory(DOT, &BOB), -100i128);
    assert_eq!(rt.inventory(DOT, &ALICE), 99i128);
}

#[test]
fn price_to_zero_liquidates_the_long_and_pays_the_short() {
    let mut rt = ExtBuilder::default().build();
    rt.prices.set_price(DOT, Some(Price::saturating_from_integer(20u128)));
    rt.update_margin(DOT);
    assert_eq!(rt.pallet.price0(DOT), Some(Price::saturating_from_integer(20u128)));
    assert_eq!(rt.mint(Origin::signed(ALICE), DOT, 100i128, 402i128), Ok(()));
    assert_eq!(rt.mint(Origin::signed(BOB), DOT, -100i128, 402i128), Ok(()));
    rt.match_interest(DOT);
    assert_eq!(rt.pallet.verdict(ALICE), Verdict::Keep);
    rt.prices.set_price(DOT, Some(Price::saturating_from_integer(0u128)));
    rt.update_margin(DOT);
    assert_eq!(rt.margin(&ALICE), 0u128);
    assert_eq!(rt.margin(&BOB), 2400u128);
    assert_eq!(rt.pallet.verdict(ALICE), Verdict::Liquidate);
    assert_eq!(rt.pallet.verdict(BOB), Verdict::Keep);
    rt.liquidate();
    assert_eq!(rt.balances(DOT, &ALICE), 0i128);
    assert_eq!(rt.inventory(DOT, &ALICE), 0i128);
    assert_eq!(rt.balances(DOT, &BOB), -100i128);
    assert_eq!(rt.inventory(DOT, &BOB), -100i128);
    assert_eq!(rt.margin(&ALICE), 0u128);
    assert_eq!(rt.margin(&BOB), 2400u128);
}

#[test]
fn deposit_then_withdrawal_restores_the_margin() {
    let mut rt = ExtBuilder::default().build();
    assert_eq!(rt.mint(Origin::signed(ALICE), DOT, 100i128, 21i128), Ok(()));
    assert_eq!(rt.margin(&ALICE), 20u128);
    assert_eq!(rt.mint(Origin::signed(ALICE), DOT, 0i128, 50i128), Ok(()));
    assert_eq!(rt.margin(&ALICE), 70u128);
    assert_eq!(rt.total_collateral_balance(), 70u128);
    assert_eq!(rt.mint(Origin::signed(ALICE), DOT, 0i128, -50i128), Ok(()));
    assert_eq!(rt.margin(&ALICE), 20u128);
    assert_eq!(rt.balances(DOT, &ALICE), 100i128);
    assert_eq!(rt.total_collateral_balance(), 20u128);
    assert_eq!(balance_of_treasury(&rt), 1u128);
    assert_eq!(rt.total_treasury_balance(&ALICE), 999_999_999_999_999_979u128);
}

#[test]
fn matching_twice_changes_nothing() {
    let mut rt = ExtBuilder::default().build();
    assert_eq!(rt.mint(Origin::signed(ALICE), DOT, 100i128, 21i128), Ok(()));
    assert_eq!(rt.mint(Origin::signed(BOB), DOT, -100i128, 21i128), Ok(()));
    assert_eq!(rt.mint(Origin::signed(CHARLIE), DOT, 50i128, 20i128), Ok(()));
    assert_eq!(rt.mint(Origin::signed(GEORGES), DOT, -10i128, 20i128), Ok(()));
    rt.match_interest(DOT);
    let once = [
        rt.inventory(DOT, &ALICE),
        rt.inventory(DOT, &BOB),
        rt.inventory(DOT, &CHARLIE),
        rt.inventory(DOT, &GEORGES),
    ];
    assert_eq!(once, [73i128, -100i128, 36i128, -10i128]);
    rt.match_interest(DOT);
    let twice = [
        rt.inventory(DOT, &ALICE),
        rt.inventory(DOT, &BOB),
        rt.inventory(DOT, &CHARLIE),
        rt.inventory(DOT, &GEORGES),
    ];
    assert_eq!(once, twice);
}

#[test]
fn matched_totals_stay_within_the_smaller_side() {
    let mut rt = ExtBuilder::default().build();
    assert_eq!(rt.mint(Origin::signed(ALICE), DOT, 100i128, 21i128), Ok(()));
    assert_eq!(rt.mint(Origin::signed(BOB), DOT, -100i128, 21i128), Ok(()));
    assert_eq!(rt.mint(Origin::signed(CHARLIE), DOT, 50i128, 20i128), Ok(()));
    assert_eq!(rt.mint(Origin::signed(GEORGES), DOT, -10i128, 20i128), Ok(()));
    rt.match_interest(DOT);
    assert_eq!(rt.pallet.open_interest(DOT), (150u128, 110u128));
    let longs = rt.inventory(DOT, &ALICE) + rt.inventory(DOT, &CHARLIE);
    let shorts = -(rt.inventory(DOT, &BOB) + rt.inventory(DOT, &GEORGES));
    assert_eq!(shorts, 110i128);
    assert_eq!(longs, 109i128);
    assert!(longs <= shorts);
}

#[test]
fn inventory_stays_within_exposure_after_a_cycle() {
    let mut rt = ExtBuilder::default().build();
    rt.on_initialize(1);
    assert_eq!(rt.mint(Origin::signed(ALICE), DOT, 100i128, 21i128), Ok(()));
    assert_eq!(rt.mint(Origin::signed(BOB), DOT, -100i128, 21i128), Ok(()));
    rt.on_initialize(2);
    assert_eq!(rt.mint(Origin::signed(ALICE), DOT, -150i128, 40i128), Ok(()));
    assert_eq!(rt.balances(DOT, &ALICE), -50i128);
    assert_eq!(rt.inventory(DOT, &ALICE), 100i128);
    rt.on_initialize(3);
    for who in [ALICE, BOB, CHARLIE, GEORGES] {
        for asset in [DOT, LDOT] {
            let balance = rt.balances(asset, &who);
            let inventory = rt.inventory(asset, &who);
            assert!(inventory == 0 || (inventory > 0) == (balance > 0));
            assert!(inventory.unsigned_abs() <= balance.unsigned_abs());
        }
    }
    assert_eq!(rt.inventory(DOT, &ALICE), 0i128);
    assert_eq!(rt.inventory(DOT, &BOB), 0i128);
}

#[test]
fn a_deficit_leaves_zero_margin() {
    let mut rt = ExtBuilder::default().build();
    rt.on_initialize(1);
    assert_eq!(rt.mint(Origin::signed(ALICE), DOT, 100i128, 21i128), Ok(()));
    assert_eq!(rt.mint(Origin::signed(BOB), DOT, -100i128, 21i128), Ok(()));
    rt.on_initialize(2);
    rt.prices.set_price(DOT, Some(Price::saturating_from_integer(2u128)));
    rt.update_margin(DOT);
    assert_eq!(rt.margin(&BOB), 0u128);
    assert_eq!(rt.margin(&ALICE), 120u128);
}

#[test]
fn first_mark_sets_the_baseline_without_moving_margin() {
    let mut rt = ExtBuilder::default().build();
    assert_eq!(rt.pallet.price0(DOT), None);
    assert_eq!(rt.mint(Origin::signed(ALICE), DOT, 100i128, 21i128), Ok(()));
    assert_eq!(rt.mint(Origin::signed(BOB), DOT, -100i128, 21i128), Ok(()));
    rt.match_interest(DOT);
    rt.prices.set_price(DOT, Some(Price::saturating_from_integer(7u128)));
    rt.update_margin(DOT);
    assert_eq!(rt.pallet.price0(DOT), Some(Price::saturating_from_integer(7u128)));
    assert_eq!(rt.margin(&ALICE), 20u128);
    assert_eq!(rt.margin(&BOB), 20u128);
}

#[test]
fn a_missing_price_skips_the_mark() {
    let mut rt = ExtBuilder::default().build();
    rt.on_initialize(1);
    assert_eq!(rt.mint(Origin::signed(ALICE), DOT, 100i128, 21i128), Ok(()));
    assert_eq!(rt.mint(Origin::signed(BOB), DOT, -100i128, 21i128), Ok(()));
    rt.on_initialize(2);
    rt.prices.set_price(DOT, None);
    rt.on_initialize(3);
    assert_eq!(rt.pallet.price0(DOT), Some(Price::one()));
    assert_eq!(rt.margin(&ALICE), 20u128);
    assert_eq!(rt.inventory(DOT, &ALICE), 100i128);
    rt.pallet.mark_to_price(DOT, Some(Price::saturating_from_integer(3u128)));
    assert_eq!(rt.margin(&ALICE), 220u128);
    assert_eq!(rt.margin(&BOB), 0u128);
}

#[test]
fn mint_values_exposure_at_the_current_price() {
    let mut rt = ExtBuilder::default().build();
    rt.on_initialize(1);
    rt.prices.set_price(DOT, Some(Price::saturating_from_integer(20u128)));
    assert_eq!(rt.pallet.price0(DOT), Some(Price::one()));
    assert_eq!(
        rt.mint(Origin::signed(ALICE), DOT, 100i128, 401i128),
        Err(DispatchError::Module(Error::NotEnoughIM))
    );
    assert_eq!(rt.margin(&ALICE), 0u128);
    assert_eq!(rt.balances(DOT, &ALICE), 0i128);
    assert_eq!(rt.total_collateral_balance(), 0u128);
    assert_eq!(rt.mint(Origin::signed(ALICE), DOT, 100i128, 402i128), Ok(()));
    assert_eq!(rt.margin(&ALICE), 400u128);
    assert_eq!(balance_of_treasury(&rt), 2u128);
}

#[test]
fn margin_is_needed_across_all_assets() {
    let mut rt = ExtBuilder::default().build();
    assert_eq!(rt.mint(Origin::signed(ALICE), DOT, 100i128, 21i128), Ok(()));
    assert_eq!(rt.pallet.get_needed_im(&rt.prices, ALICE, LDOT, -100), Ok((50i128, -100i128)));
    assert_eq!(
        rt.mint(Origin::signed(ALICE), LDOT, -100i128, 31i128),
        Err(DispatchError::Module(Error::NotEnoughIM))
    );
    assert_eq!(rt.mint(Origin::signed(ALICE), LDOT, -100i128, 32i128), Ok(()));
    assert_eq!(rt.margin(&ALICE), 50u128);
}

#[test]
fn unknown_asset_is_rejected_first() {
    let mut rt = ExtBuilder::default().build();
    rt.prices.set_price(DOT, None);
    rt.prices.set_price(LDOT, None);
    assert_eq!(
        rt.mint(Origin::signed(ALICE), KUSD, 1i128, 1i128),
        Err(DispatchError::Module(Error::BadAssetID))
    );
    assert_eq!(rt.pallet.get_needed_im(&rt.prices, ALICE, KUSD, 1), Err(Error::BadAssetID));
    assert_eq!(
        rt.set_global_params(
            Origin::Root,
            KUSD,
            Change::NewValue(Ratio::from_percent(30)),
            Change::NoChange,
            Change::NoChange
        ),
        Err(DispatchError::Module(Error::BadAssetID))
    );
}

#[test]
fn missing_price_rejects_the_mint() {
    let mut rt = ExtBuilder::default().build();
    rt.prices.set_price(DOT, None);
    assert_eq!(
        rt.mint(Origin::signed(ALICE), DOT, 1i128, 1i128),
        Err(DispatchError::Module(Error::PriceNotSet))
    );
    assert_eq!(
        rt.mint(Origin::signed(ALICE), LDOT, 1i128, 1i128),
        Err(DispatchError::Module(Error::PriceNotSet))
    );
    rt.prices.set_price(DOT, Some(Price::one()));
    rt.prices.set_price(LDOT, None);
    assert_eq!(
        rt.mint(Origin::signed(ALICE), DOT, 1i128, 1i128),
        Err(DispatchError::Module(Error::PriceNotSet))
    );
}

#[test]
fn values_beyond_the_range_are_rejected() {
    let mut rt = ExtBuilder::default().build();
    rt.prices.set_price(DOT, Some(Price::saturating_from_integer(10u128)));
    assert_eq!(
        rt.mint(Origin::signed(ALICE), DOT, i128::MAX, 1i128),
        Err(DispatchError::Module(Error::Overflow))
    );
    rt.prices.set_price(DOT, Some(Price::saturating_from_integer(2u128)));
    assert_eq!(
        rt.set_global_params(
            Origin::Root,
            DOT,
            Change::NewValue(Ratio::from_percent(100)),
            Change::NoChange,
            Change::NewValue(Ratio::from_percent(100))
        ),
        Ok(())
    );
    assert_eq!(
        rt.mint(Origin::signed(ALICE), DOT, i128::MAX, 1i128),
        Err(DispatchError::Module(Error::AmountConvertFailed))
    );
    assert_eq!(
        rt.mint(Origin::signed(ALICE), DOT, 0i128, i128::MIN),
        Err(DispatchError::Module(Error::NotEnoughIM))
    );
    assert_eq!(rt.margin(&ALICE), 0u128);
    assert_eq!(rt.balances(DOT, &ALICE), 0i128);
}

#[test]
fn only_a_signed_origin_mints() {
    let mut rt = ExtBuilder::default().build();
    assert_eq!(rt.mint(Origin::Root, DOT, 1i128, 1i128), Err(DispatchError::BadOrigin));
    assert_eq!(rt.mint(Origin::Unsigned, DOT, 1i128, 1i128), Err(DispatchError::BadOrigin));
    assert_eq!(
        rt.set_global_params(Origin::Unsigned, DOT, Change::NoChange, Change::NoChange, Change::NoChange),
        Err(DispatchError::BadOrigin)
    );
}

#[test]
fn a_rejected_change_applies_nothing() {
    let mut rt = ExtBuilder::default().build();
    let before = rt.pallet.collateral_params(DOT);
    assert_eq!(
        rt.set_global_params(
            Origin::signed(ALICE),
            DOT,
            Change::NewValue(Ratio::from_percent(50)),
            Change::NewValue(Ratio::from_percent(50)),
            Change::NewValue(Ratio::from_percent(1))
        ),
        Err(DispatchError::Module(Error::BadIMParameters))
    );
    assert_eq!(rt.pallet.collateral_params(DOT), before);
    assert_eq!(rt.last_event(), None);
    assert_eq!(
        rt.set_global_params(
            Origin::signed(ALICE),
            DOT,
            Change::NewValue(Ratio::from_percent(10)),
            Change::NoChange,
            Change::NoChange
        ),
        Ok(())
    );
    assert_eq!(rt.pallet.collateral_params(DOT).initial_im_ratio, Ratio::from_percent(10));
    assert_eq!(
        rt.set_global_params(
            Origin::signed(ALICE),
            DOT,
            Change::NewValue(Ratio::from_percent(50)),
            Change::NewValue(Ratio::from_percent(49)),
            Change::NewValue(Ratio::from_percent(1))
        ),
        Ok(())
    );
    assert_eq!(
        rt.pallet.collateral_params(DOT),
        AssetParams {
            initial_im_ratio: Ratio::from_percent(50),
            liquidation_ratio: Ratio::from_percent(49),
            transaction_fee: Ratio::from_percent(1),
        }
    );
    assert_eq!(rt.events.len(), 4);
    assert_eq!(rt.events[1], Event::InitialIMRatioUpdated(DOT, Ratio::from_percent(50)));
    assert_eq!(rt.events[2], Event::LiquidationRatioUpdated(DOT, Ratio::from_percent(49)));
    assert_eq!(rt.last_event(), Some(Event::TransactionFeeUpdated(DOT, Ratio::from_percent(1))));
}

#[test]
fn mint_reports_collateral_then_exposure() {
    let mut rt = ExtBuilder::default().build();
    assert_eq!(rt.mint(Origin::signed(ALICE), DOT, 100i128, 21i128), Ok(()));
    assert_eq!(
        rt.events,
        vec![Event::CollateralUpdated(20i128), Event::BalanceUpdated(ALICE, 100i128)]
    );
    let outcome = MintOutcome { collateral: 0, fee: 0, margin: 5, balance: -3 };
    assert_eq!(outcome.events(BOB), vec![Event::BalanceUpdated(BOB, -3i128)]);
}

#[test]
fn a_mint_without_net_collateral_writes_no_margin() {
    let mut rt = ExtBuilder::default().build();
    rt.prices.set_price(DOT, Some(Price::saturating_from_integer(0u128)));
    assert_eq!(rt.mint(Origin::signed(ALICE), DOT, 100i128, 0i128), Ok(()));
    assert_eq!(rt.balances(DOT, &ALICE), 100i128);
    assert_eq!(rt.margin(&ALICE), 0u128);
    assert_eq!(rt.pallet.verdict(ALICE), Verdict::Keep);
    assert_eq!(rt.mint(Origin::signed(BOB), DOT, -100i128, 1i128), Ok(()));
    assert_eq!(rt.mint(Origin::signed(BOB), DOT, 0i128, -1i128), Ok(()));
    assert_eq!(rt.margin(&BOB), 0u128);
    assert_eq!(rt.pallet.verdict(BOB), Verdict::Liquidate);
    rt.on_initialize(1);
    assert_eq!(rt.balances(DOT, &ALICE), 100i128);
    assert_eq!(rt.balances(DOT, &BOB), 0i128);
}

#[test]
fn open_interest_is_unwound_to_the_inventory() {
    let mut rt = ExtBuilder::default().build();
    rt.prices.set_price(DOT, Some(Price::saturating_from_integer(20u128)));
    rt.update_margin(DOT);
    rt.update_margin(LDOT);
    assert_eq!(rt.mint(Origin::signed(ALICE), DOT, 100i128, 450i128), Ok(()));
    assert_eq!(rt.mint(Origin::signed(BOB), DOT, -100i128, 402i128), Ok(()));
    assert_eq!(rt.mint(Origin::signed(CHARLIE), DOT, 50i128, 400i128), Ok(()));
    assert_eq!(rt.mint(Origin::signed(GEORGES), DOT, -10i128, 400i128), Ok(()));
    rt.match_interest(DOT);
    rt.prices.set_price(DOT, Some(Price::saturating_from_integer(16u128)));
    rt.update_margin(DOT);
    assert_eq!(rt.margin(&ALICE), 156u128);
    assert_eq!(rt.pallet.verdict(ALICE), Verdict::Unwind);
    assert_eq!(rt.pallet.verdict(CHARLIE), Verdict::Keep);
    rt.liquidate();
    assert_eq!(rt.balances(DOT, &ALICE), 73i128);
    assert_eq!(rt.inventory(DOT, &ALICE), 73i128);
    assert_eq!(rt.margin(&ALICE), 156u128);
}

#[test]
fn margin_saturates_at_the_largest_signed_amount() {
    let mut rt = ExtBuilder::default().build();
    rt.prices.set_price(DOT, Some(Price::saturating_from_integer(0u128)));
    rt.update_margin(DOT);
    let huge: i128 = 1_000_000_000_000_000_000_000_000_000_000;
    assert_eq!(rt.mint(Origin::signed(ALICE), DOT, huge, 1i128), Ok(()));
    assert_eq!(rt.mint(Origin::signed(BOB), DOT, -huge, 1i128), Ok(()));
    rt.match_interest(DOT);
    assert_eq!(rt.inventory(DOT, &ALICE), huge);
    rt.prices.set_price(DOT, Some(Price::saturating_from_integer(1_000_000_000u128)));
    rt.update_margin(DOT);
    assert_eq!(rt.margin(&ALICE), i128::MAX as u128);
    assert_eq!(rt.margin(&BOB), 0u128);
    assert_eq!(rt.pallet.verdict(ALICE), Verdict::Keep);
    assert_eq!(rt.pallet.verdict(BOB), Verdict::Liquidate);
}

#[test]
fn ratios_agree_with_the_arithmetic_crate() {
    for x in [0u32, 1, 10, 20, 29, 30, 100, 101, 4_000_000_000] {
        assert_eq!(Ratio::from_percent(x).deconstruct(), Permill::from_percent(x).deconstruct());
    }
    for x in [0u32, 1, 1000, 20000, 999_999, 1_000_000, 1_000_001, u32::MAX] {
        assert_eq!(Ratio::from_parts(x).deconstruct(), Permill::from_parts(x).deconstruct());
    }
    assert_eq!(Ratio::zero().deconstruct(), 0);
    assert_eq!(AssetParams::default().initial_im_ratio, Ratio::zero());
}

#[test]
fn prices_agree_with_the_arithmetic_crate() {
    for n in [0u128, 1, 2, 9, 10, 20, 340_282_366_920_938_463_463, 340_282_366_920_938_463_464, u128::MAX] {
        assert_eq!(
            Price::saturating_from_integer(n).into_inner(),
            FixedU128::saturating_from_integer(n).into_inner()
        );
    }
    assert_eq!(Price::one().into_inner(), FixedU128::one().into_inner());
    assert_eq!(Price::from_inner(5).into_inner(), 5);
    assert!(Price::from_inner(0).is_zero());
    assert!(!Price::one().is_zero());
}

#[test]
fn absolute_value_is_exact_on_the_whole_range() {
    assert_eq!(perpetuals::arith::unsigned_abs(0), 0);
    assert_eq!(perpetuals::arith::unsigned_abs(-7), 7);
    assert_eq!(perpetuals::arith::unsigned_abs(7), 7);
    assert_eq!(perpetuals::arith::unsigned_abs(i128::MAX), i128::MAX as u128);
    assert_eq!(perpetuals::arith::unsigned_abs(i128::MIN), 1u128 << 127);
}

#[test]
fn shares_follow_the_arithmetic_crate() {
    let mut rt = ExtBuilder::default().build();
    assert_eq!(rt.mint(Origin::signed(ALICE), DOT, 1234i128, 400i128), Ok(()));
    assert_eq!(rt.mint(Origin::signed(BOB), DOT, -777i128, 400i128), Ok(()));
    rt.match_interest(DOT);
    let share = Perquintill::from_rational_approximation(777u128, 1234u128);
    assert_eq!(rt.inventory(DOT, &ALICE) as u128, share.mul_floor(1234u128));
    assert_eq!(rt.inventory(DOT, &ALICE), 776i128);
    assert_eq!(rt.inventory(DOT, &BOB), -777i128);
}

#[test]
fn price_source_holds_what_is_set() {
    let mut source = MockPriceSource::new();
    assert_eq!(source.get_price(DOT), Some(Price::one()));
    assert_eq!(source.get_price(LDOT), Some(Price::one()));
    source.set_price(DOT, Some(Price::from_inner(5)));
    assert_eq!(source.get_price(DOT), Some(Price::from_inner(5)));
    assert_eq!(source.get_price(LDOT), Some(Price::one()));
    source.set_price(LDOT, None);
    assert_eq!(source.get_price(LDOT), None);
    assert_eq!(source.get_price(KUSD), None);
    assert_eq!(source.get_price(DOT), Some(Price::from_inner(5)));
}

#[test]
fn bank_moves_what_is_held() {
    let mut bank = Bank::new();
    bank.endow(ALICE, 10);
    assert_eq!(bank.transfer(ALICE, BOB, 11), Err(BankError::InsufficientBalance));
    assert_eq!(bank.transfer(ALICE, BOB, 4), Ok(()));
    assert_eq!(bank.free_balance(ALICE), 6);
    assert_eq!(bank.free_balance(BOB), 4);
    assert_eq!(bank.transfer(ALICE, ALICE, 100), Ok(()));
    assert_eq!(bank.transfer(CHARLIE, BOB, 0), Ok(()));
    assert_eq!(bank.withdraw(BOB, 5), Err(BankError::InsufficientBalance));
    assert_eq!(bank.withdraw(BOB, 4), Ok(()));
    assert_eq!(bank.free_balance(BOB), 0);
    bank.endow(GEORGES, u128::MAX);
    assert_eq!(bank.transfer(ALICE, GEORGES, 1), Err(BankError::Overflow));
    bank.deposit(GEORGES, 1);
    assert_eq!(bank.free_balance(GEORGES), u128::MAX);
    bank.deposit(BOB, 3);
    assert_eq!(bank.free_balance(BOB), 3);
    let copy = bank.duplicate();
    assert_eq!(copy.free_balance(ALICE), 6);
}

#[test]
fn a_refused_settlement_moves_nothing() {
    let mut bank = Bank::new();
    bank.endow(ALICE, 10);
    let outcome = MintOutcome { collateral: 8, fee: 3, margin: 8, balance: 0 };
    assert_eq!(bank.settle(ALICE, &outcome), Err(BankError::InsufficientBalance));
    assert_eq!(bank.free_balance(ALICE), 10);
    assert_eq!(bank.free_balance(POOL_ACCOUNT), 0);
    let outcome = MintOutcome { collateral: 7, fee: 3, margin: 7, balance: 0 };
    assert_eq!(bank.settle(ALICE, &outcome), Ok(()));
    assert_eq!(bank.free_balance(ALICE), 0);
    assert_eq!(bank.free_balance(POOL_ACCOUNT), 7);
    assert_eq!(bank.free_balance(TREASURY_ACCOUNT), 3);
    let outcome = MintOutcome { collateral: -8, fee: 0, margin: 0, balance: 0 };
    assert_eq!(bank.settle(ALICE, &outcome), Err(BankError::InsufficientBalance));
    let outcome = MintOutcome { collateral: -7, fee: 1, margin: 0, balance: 0 };
    assert_eq!(bank.settle(ALICE, &outcome), Ok(()));
    assert_eq!(bank.free_balance(ALICE), 6);
    assert_eq!(bank.free_balance(TREASURY_ACCOUNT), 4);
}

#[test]
fn table_keeps_one_row_per_key() {
    let mut table: Table<u128, u128> = Table::new();
    assert_eq!(table.len(), 0);
    assert_eq!(table.get(1), None);
    table.insert(1, 10);
    table.insert(2, 20);
    table.insert(1, 11);
    assert_eq!(table.len(), 2);
    assert_eq!(table.get(1), Some(11));
    assert_eq!(table.find(2), Some(1));
    assert_eq!(table.find(3), None);
    assert_eq!(table.row(0), (1, 11));
    table.set_value(1, 21);
    assert_eq!(table.get(2), Some(21));
    assert_eq!(table.duplicate().row(1), (2, 21));
}

#[test]
fn genesis_loads_the_parameters_in_order() {
    let mut pallet = Pallet::new(vec![DOT]);
    assert!(pallet.is_asset(DOT));
    assert!(!pallet.is_asset(LDOT));
    assert_eq!(pallet.collateral_params(DOT), AssetParams::default());
    assert_eq!(GenesisConfig::default().collaterals_params.len(), 0);
    let genesis = GenesisConfig {
        collaterals_params: vec![
            (DOT, Ratio::from_percent(20), Ratio::from_percent(10), Ratio::from_parts(1000)),
            (LDOT, Ratio::from_percent(30), Ratio::from_percent(10), Ratio::from_parts(20000)),
            (DOT, Ratio::from_percent(25), Ratio::from_percent(5), Ratio::from_parts(1)),
        ],
    };
    genesis.build(&mut pallet);
    assert_eq!(pallet.collateral_params(DOT).initial_im_ratio, Ratio::from_percent(25));
    assert_eq!(pallet.collateral_params(DOT).liquidation_ratio, Ratio::from_percent(5));
    assert_eq!(pallet.collateral_params(LDOT).transaction_fee, Ratio::from_parts(20000));
    assert_eq!(pallet.margin(ALICE), 0);
    assert_eq!(pallet.balances(DOT, ALICE), 0);
    assert_eq!(pallet.holding(DOT, ALICE).inventory, 0);
    assert_eq!(pallet.on_initialize(&MockPriceSource::new(), 1), 10);
}

#[test]
fn wide_products_round_to_the_nearest_whole() {
    let mut rt = ExtBuilder::default().build();
    rt.prices.set_price(DOT, Some(Price::saturating_from_integer(0u128)));
    rt.update_margin(DOT);
    let size: i128 = 1_000_000_000_000_000_000_001;
    let deposit: i128 = 100_000_000_000_000_000;
    assert_eq!(rt.mint(Origin::signed(ALICE), DOT, size, deposit), Ok(()));
    assert_eq!(rt.mint(Origin::signed(BOB), DOT, -size, deposit), Ok(()));
    assert_eq!(rt.mint(Origin::signed(CHARLIE), DOT, 1i128, deposit), Ok(()));
    assert_eq!(rt.mint(Origin::signed(GEORGES), DOT, -1i128, deposit), Ok(()));
    rt.match_interest(DOT);
    assert_eq!(rt.inventory(DOT, &ALICE), size);
    assert_eq!(rt.inventory(DOT, &CHARLIE), 1i128);
    let price = Price::from_inner(1_600_000_000_000_000_000);
    assert_eq!(
        FixedU128::from_inner(price.into_inner()).saturating_mul_int(size),
        1_600_000_000_000_000_000_002i128
    );
    rt.pallet.mark_to_price(DOT, Some(price));
    assert_eq!(rt.margin(&ALICE), 1_600_100_000_000_000_000_002u128);
    assert_eq!(rt.margin(&CHARLIE), 100_000_000_000_000_001u128);
    assert_eq!(rt.margin(&BOB), 0u128);
    assert_eq!(rt.margin(&GEORGES), 99_999_999_999_999_999u128);
}

#[test]
fn beyond_the_resolution_of_a_share_the_larger_side_is_matched_in_full() {
    let mut rt = ExtBuilder::default().build();
    rt.prices.set_price(DOT, Some(Price::saturating_from_integer(0u128)));
    let longs: i128 = 1_999_999_999_999_999_999;
    let shorts: i128 = 1_999_999_999_999_999_998;
    assert_eq!(rt.mint(Origin::signed(ALICE), DOT, longs, 0i128), Ok(()));
    assert_eq!(rt.mint(Origin::signed(BOB), DOT, -shorts, 0i128), Ok(()));
    rt.match_interest(DOT);
    assert_eq!(rt.pallet.open_interest(DOT), (longs as u128, shorts as u128));
    assert_eq!(
        Perquintill::from_rational_approximation(shorts as u128, longs as u128),
        Perquintill::one()
    );
    assert_eq!(rt.inventory(DOT, &BOB), -shorts);
    assert_eq!(rt.inventory(DOT, &ALICE), longs);
}

#[test]
fn exact_shares_match_both_sides_equally() {
    let mut rt = ExtBuilder::default().build();
    assert_eq!(rt.mint(Origin::signed(ALICE), DOT, 100i128, 21i128), Ok(()));
    assert_eq!(rt.mint(Origin::signed(CHARLIE), DOT, 60i128, 21i128), Ok(()));
    assert_eq!(rt.mint(Origin::signed(BOB), DOT, -80i128, 21i128), Ok(()));
    rt.match_interest(DOT);
    assert_eq!(rt.inventory(DOT, &ALICE), 50i128);
    assert_eq!(rt.inventory(DOT, &CHARLIE), 30i128);
    assert_eq!(rt.inventory(DOT, &BOB), -80i128);
}

#[test]
fn needed_margin_at_the_lowest_exposure() {
    let rt = ExtBuilder::default().build();
    assert_eq!(
        rt.pallet.get_needed_im(&rt.prices, ALICE, DOT, i128::MIN),
        Ok((34028236692093846346337460743176821146i128, i128::MIN))
    );
    assert_eq!(
        rt.pallet.get_needed_im(&rt.prices, ALICE, DOT, i128::MAX),
        Ok((34028236692093846346337460743176821146i128, i128::MAX))
    );
}

#[test]
fn exposure_beyond_the_range_is_rejected() {
    let mut rt = ExtBuilder::default().build();
    rt.prices.set_price(DOT, Some(Price::saturating_from_integer(0u128)));
    assert_eq!(rt.mint(Origin::signed(ALICE), DOT, i128::MAX, 0i128), Ok(()));
    assert_eq!(
        rt.mint(Origin::signed(ALICE), DOT, 1i128, 0i128),
        Err(DispatchError::Module(Error::Overflow))
    );
    assert_eq!(rt.balances(DOT, &ALICE), i128::MAX);
}
