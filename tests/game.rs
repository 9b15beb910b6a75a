use std::str::FromStr;
use tarock::card::Card;
use tarock::collection::CardCollection;
use tarock::game::{Calls, GameState, Player};
use tarock::game_type::GameType;

#[test]
fn card_collection_from_str() {
    assert_eq!(
        CardCollection::<3>::from_str("H1H2H3").unwrap().cards,
        [Some(Card::H1), Some(Card::H2), Some(Card::H3)],
    );
    assert_eq!(
        CardCollection::<3>::from_str("H1H2").unwrap().cards,
        [Some(Card::H1), Some(Card::H2), None],
    );
    assert_eq!(
        CardCollection::<3>::from_str("H1H2H3H4").unwrap().cards,
        [Some(Card::H1), Some(Card::H2), Some(Card::H3)],
    );
    assert_eq!(
        CardCollection::<3>::from_str("XKXBXD").unwrap().cards,
        [Some(Card::XK), Some(Card::XB), Some(Card::XD)],
    );
    assert_ne!(
        CardCollection::<3>::from_str("XKXBXD").unwrap().cards,
        [Some(Card::HK), Some(Card::HK), Some(Card::UNKNOWN)],
    );
    assert_eq!(
        CardCollection::<12>::from_str("").unwrap().cards,
        [None; 12]
    );
    assert_eq!(
        CardCollection::<12>::from_str("asdaP07sd").unwrap().cards,
        [None; 12]
    );
    assert_eq!(
        CardCollection::<6>::from_str("......").unwrap().cards,
        [Some(Card::UNKNOWN); 6]
    );
    assert_eq!(
        CardCollection::<6>::from_str("P9P8P7").unwrap().excluded,
        [None; 54]
    );
}

#[test]
fn card_collection_eq() {
    assert_eq!(
        CardCollection::<3>::from_str("H1H2H3").unwrap(),
        CardCollection::<3>::from_str("H1H2H3").unwrap(),
    );
    assert_eq!(
        CardCollection::<3>::from_str("H1H2H3").unwrap(),
        CardCollection::<3>::from_str("H3H2H1").unwrap(),
    );
    assert_ne!(
        CardCollection::<3>::from_str("H1H2H3").unwrap(),
        CardCollection::<3>::from_str("H1H2H4").unwrap(),
    );
    assert_eq!(
        CardCollection::<3>::from_str("H1H2H3.").unwrap(),
        CardCollection::<3>::from_str("H1H2H3.").unwrap(),
    );
    assert_eq!(
        CardCollection::<4>::from_str("H1H2H3.").unwrap(),
        CardCollection::<4>::from_str("H1H2H3.").unwrap(),
    );
    assert_eq!(
        CardCollection::<5>::from_str("H1H2H3..").unwrap(),
        CardCollection::<5>::from_str("H1H2H3..").unwrap(),
    );
    assert_eq!(
        CardCollection::<5>::from_str("H1H2H3..").unwrap(),
        CardCollection::<5>::from_str("H2H1H3..").unwrap(),
    );
    assert_ne!(
        CardCollection::<5>::from_str("H1H2H3..").unwrap(),
        CardCollection::<5>::from_str("H1H2H3.").unwrap(),
    );
    assert_eq!(
        CardCollection::<12>::from_str("hdt1t3t5t6k1k2k3k4kbkp").unwrap(),
        CardCollection::<12>::from_str("hdt1t3t5t6k1k2k3k4kbkp").unwrap(),
    );
    assert_eq!(
        CardCollection::<54>::new(),
        CardCollection::<54>::from_str("").unwrap(),
    );
    assert_eq!(
        CardCollection::<54>::from_str("xkxbxd...").unwrap(),
        CardCollection::<54>::from_str("xdxbxk...").unwrap(),
    );
    assert_ne!(
        CardCollection::<54>::from_str("xkxbxd..").unwrap(),
        CardCollection::<54>::from_str("xdxbxk...").unwrap(),
    );
}

#[test]
fn game_state_from_str() {
    // Start of Rufer
    assert_eq!(
        GameState::from_str(
            ".../...#hdt1t3t5t6k1k2k3k4kbkp/#.........../#.........../#.........../#hkx8t22t21 R1XK-1 1K/T// j -"
        )
        .unwrap(),
        GameState {
            players: [
                Player {
                    hand: CardCollection::from_str("hdt1t3t5t6k1k2k3k4kbkp").unwrap(),
                    stiche: CardCollection::new(),
                    calls: Calls {
                        typ: Some(GameType::R),
                        taken_talon: Some(1),
                        pagat: true,
                        kings: true,
                        called_king: Some(Card::XK),
                        ..Default::default()
                    },
                },
                Player {
                    hand: CardCollection::from_str("...........").unwrap(),
                    stiche: CardCollection::new(),
                    calls: Calls {
                        trull: true,
                        ..Default::default()
                    }
                },
                Player {
                    hand: CardCollection::from_str("...........").unwrap(),
                    stiche: CardCollection::new(),
                    calls: Calls::default(),
                },
                Player {
                    hand: CardCollection::from_str("...........").unwrap(),
                    stiche: CardCollection::new(),
                    calls: Calls::default(),
                },
            ],
            stich: CardCollection::<4>::from_str("HKX8T22T21").unwrap(),
            talon: [
                CardCollection::<3>::from_str("...").unwrap(),
                CardCollection::<3>::from_str("...").unwrap(),
            ],
            kleinen_stechen_grossen: true,
        }
    );
}

#[test]
fn game_state_eq() {
    assert_eq!(
        GameState {
            players: [
                Player {
                    hand: CardCollection::<12>::from_str("H1H3T5T6K1K2K3K4KBKP....").unwrap(),
                    stiche: CardCollection::<54>::from_str("..............").unwrap(),
                    calls: Calls::default(),
                },
                Player {
                    hand: CardCollection::<12>::from_str("H8T22T21").unwrap(),
                    stiche: CardCollection::<54>::from_str("..............").unwrap(),
                    calls: Calls::default(),
                },
                Player {
                    hand: CardCollection::<12>::from_str("HK").unwrap(),
                    stiche: CardCollection::<54>::from_str("..............").unwrap(),
                    calls: Calls::default(),
                },
                Player {
                    hand: CardCollection::<12>::from_str("HX").unwrap(),
                    stiche: CardCollection::<54>::from_str("..............").unwrap(),
                    calls: Calls::default(),
                },
            ],
            stich: CardCollection::<4>::from_str("T12....").unwrap(),
            talon: [
                CardCollection::<3>::from_str("HDT").unwrap(),
                CardCollection::<3>::from_str("HDT").unwrap(),
            ],
            kleinen_stechen_grossen: true,
        },
        GameState {
            players: [
                Player {
                    hand: CardCollection::<12>::from_str("H1H3T5T6K1K2K3K4KBKP....").unwrap(),
                    stiche: CardCollection::<54>::from_str("..............").unwrap(),
                    calls: Calls::default(),
                },
                Player {
                    hand: CardCollection::<12>::from_str("H8T22T21").unwrap(),
                    stiche: CardCollection::<54>::from_str("..............").unwrap(),
                    calls: Calls::default(),
                },
                Player {
                    hand: CardCollection::<12>::from_str("HK").unwrap(),
                    stiche: CardCollection::<54>::from_str("..............").unwrap(),
                    calls: Calls::default(),
                },
                Player {
                    hand: CardCollection::<12>::from_str("HX").unwrap(),
                    stiche: CardCollection::<54>::from_str("..............").unwrap(),
                    calls: Calls::default(),
                },
            ],
            stich: CardCollection::<4>::from_str("T12....").unwrap(),
            talon: [
                CardCollection::<3>::from_str("HDT").unwrap(),
                CardCollection::<3>::from_str("HDT").unwrap(),
            ],
            kleinen_stechen_grossen: true,
        }
    );
}
