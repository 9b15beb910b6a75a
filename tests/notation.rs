use std::str::FromStr;
use tarock::card::Card;
use tarock::collection::CardCollection;
use tarock::error::ParseError;
use tarock::game::{Calls, GameState};
use tarock::game_type::GameType;

const RUFER: &str = ".../...#hdt1t3t5t6k1k2k3k4kbkp/#.........../#.........../#.........../#hkx8t22t21 R1XK-1 1K/T// j -";

#[test]
fn card_codes_ignore_case() {
    assert_eq!(Card::from_str("hk"), Card::from_str("HK"));
    assert_eq!(Card::from_str("x10"), Ok(Card::X10));
    assert_eq!(Card::from_str("t22"), Ok(Card::T22));
    assert_eq!(Card::decode("Kb"), Ok(Card::KB));
    assert_eq!(Card::decode(""), Err(ParseError::UnknownCard));
    assert_eq!(Card::decode("T0"), Err(ParseError::UnknownCard));
}

#[test]
fn game_type_codes_need_full_match() {
    assert_eq!(GameType::decode("PB"), Err(ParseError::InvalidGameType));
    assert_eq!(GameType::decode("P"), Err(ParseError::InvalidGameType));
    assert_eq!(GameType::decode("bo"), Ok(GameType::BO));
}

#[test]
fn collection_takes_longest_code() {
    let c = CardCollection::<4>::decode("T12T2T22T1");
    assert_eq!(c.cards, [Some(Card::T12), Some(Card::T2), Some(Card::T22), Some(Card::T1)]);
    let c = CardCollection::<3>::decode("T23P10");
    assert_eq!(c.cards, [Some(Card::T2), Some(Card::P10), None]);
}

#[test]
fn collection_truncates_to_capacity() {
    let c = CardCollection::<3>::decode("H1H2H3H4");
    assert_eq!(c.cards, [Some(Card::H1), Some(Card::H2), Some(Card::H3)]);
    assert!(!c.contains(Card::H4));
}

#[test]
fn collection_ignores_noise() {
    for text in ["asdaP07sd", "zz", "H", "-/#"] {
        let c = CardCollection::<5>::decode(text);
        assert_eq!(c.cards, [None; 5]);
    }
}

#[test]
fn collection_equality_counts_repeats() {
    assert_ne!(CardCollection::<3>::decode("H1H1H2"), CardCollection::<3>::decode("H1H2H2"));
    assert_eq!(CardCollection::<3>::decode("H1H1H2"), CardCollection::<3>::decode("H2H1H1"));
    assert_ne!(CardCollection::<4>::decode("H1H2H3"), CardCollection::<4>::decode("H1H2H3."));
    assert_eq!(CardCollection::<12>::decode(""), CardCollection::<12>::new());
}

#[test]
fn collection_membership() {
    let c = CardCollection::<4>::decode("HKX8T22");
    assert!(c.contains(Card::X8));
    assert!(!c.contains(Card::T21));
    assert!(!c.excludes(Card::X8));
    let mut d = CardCollection::<4>::new();
    d.excluded[7] = Some(Card::PK);
    assert!(d.excludes(Card::PK));
    assert!(!d.excludes(Card::PD));
}

#[test]
fn collection_from_cards_needs_exact_length() {
    let v = vec![Card::H1, Card::T5, Card::UNKNOWN];
    let c = CardCollection::<3>::from_cards(&v).unwrap();
    assert_eq!(c.cards, [Some(Card::H1), Some(Card::T5), Some(Card::UNKNOWN)]);
    assert_eq!(CardCollection::<4>::from_cards(&v), Err(ParseError::InvalidLength));
    assert_eq!(ParseError::InvalidLength.message(), "Invalid vector length");
}

#[test]
fn rufer_line_fields() {
    let g = GameState::from_str(RUFER).unwrap();
    assert_eq!(g.players[0].calls.typ, Some(GameType::R));
    assert_eq!(g.players[0].calls.called_king, Some(Card::XK));
    assert_eq!(g.players[0].calls.taken_talon, Some(1));
    assert!(g.players[0].calls.pagat && g.players[0].calls.kings);
    assert!(!g.players[0].calls.trull);
    assert_eq!(g.players[1].calls, Calls { trull: true, ..Default::default() });
    assert_eq!(g.players[2].calls, Calls::default());
    assert_eq!(g.players[3].calls, Calls::default());
    assert_eq!(g.stich.cards, [Some(Card::HK), Some(Card::X8), Some(Card::T22), Some(Card::T21)]);
    assert_eq!(g.talon[0].cards, [Some(Card::UNKNOWN); 3]);
    assert_eq!(g.players[0].hand.cards[0], Some(Card::HD));
    assert_eq!(g.players[0].hand.cards[10], Some(Card::KP));
    assert_eq!(g.players[0].hand.cards[11], None);
    assert!(g.kleinen_stechen_grossen);
}

#[test]
fn several_declarers_share_king_and_talon() {
    let line = ".../...#/#/#/#/# PB12T4PK212 /// - x";
    let g = GameState::decode(line).unwrap();
    assert_eq!(g.players[1].calls.typ, Some(GameType::PB1));
    assert_eq!(g.players[3].calls.typ, Some(GameType::T));
    assert_eq!(g.players[3].calls.called_king, Some(Card::PK));
    assert_eq!(g.players[1].calls.taken_talon, Some(12));
    assert_eq!(g.players[0].calls, Calls::default());
    assert!(!g.kleinen_stechen_grossen);
}

#[test]
fn later_pair_for_a_player_wins() {
    let g = GameState::decode(".../...#/#/#/#/# R1S1-2- /// J r").unwrap();
    assert_eq!(g.players[0].calls.typ, Some(GameType::S));
    assert_eq!(g.players[0].calls.called_king, None);
    assert_eq!(g.players[0].calls.taken_talon, None);
}

#[test]
fn unicode_space_separates_fields() {
    let line = RUFER.replace(' ', "\u{a0}");
    assert_eq!(GameState::from_str(&line), GameState::from_str(RUFER));
}

#[test]
fn malformed_lines_name_their_fault() {
    let bad_calls = RUFER.replace("1K/T//", "15/T//");
    assert_eq!(GameState::from_str(&bad_calls), Err("Invalid call"));
    let unordered = RUFER.replace("1K/T//", "K1/T//");
    assert_eq!(GameState::decode(&unordered), Err(ParseError::InvalidCall));
    let few_calls = RUFER.replace("1K/T//", "1K/T/");
    assert_eq!(GameState::from_str(&few_calls), Err("Invalid TAF calls group"));
    let no_talon = RUFER.replace("R1XK-1", "R1XK-");
    assert_eq!(GameState::from_str(&no_talon), Err("Invalid TAF game group"));
    let bad_player = RUFER.replace("R1XK-1", "R5XK-1");
    assert_eq!(GameState::decode(&bad_player), Err(ParseError::InvalidGameGroup));
    let no_hash = RUFER.replace("#hkx8", "hkx8");
    assert_eq!(GameState::from_str(&no_hash), Err("Invalid TAF cards group"));
    let noise = RUFER.replace("#hkx8", "#hqx8");
    assert_eq!(GameState::decode(&noise), Err(ParseError::InvalidCardsGroup));
    let short_talon = RUFER.replace(".../...", "../...");
    assert_eq!(GameState::decode(&short_talon), Err(ParseError::InvalidCardsGroup));
    let bad_flag = RUFER.replace(" j -", " X -");
    assert_eq!(GameState::from_str(&bad_flag), Err("Invalid kleinen_stechen_großen"));
}

#[test]
fn four_fields_are_missing_groups() {
    assert_eq!(GameState::from_str("a b c d"), Err("Missing TAF groups"));
    assert_eq!(GameState::decode(".../...#/#/#/#/# R1XK-1 /// j"), Err(ParseError::MissingGroups));
    assert_eq!(GameState::decode(""), Err(ParseError::MissingGroups));
}

#[test]
fn extra_fields_are_ignored() {
    let longer = format!("{} more words", RUFER);
    assert_eq!(GameState::from_str(&longer), GameState::from_str(RUFER));
}

#[test]
fn card_codes_round_trip() {
    let all = [
        Card::UNKNOWN,
        Card::HK,
        Card::HD,
        Card::HP,
        Card::HB,
        Card::H1,
        Card::H2,
        Card::H3,
        Card::H4,
        Card::PK,
        Card::PD,
        Card::PP,
        Card::PB,
        Card::P10,
        Card::P9,
        Card::P8,
        Card::P7,
        Card::KK,
        Card::KD,
        Card::KP,
        Card::KB,
        Card::K1,
        Card::K2,
        Card::K3,
        Card::K4,
        Card::XK,
        Card::XD,
        Card::XP,
        Card::XB,
        Card::X10,
        Card::X9,
        Card::X8,
        Card::X7,
        Card::T1,
        Card::T2,
        Card::T3,
        Card::T4,
        Card::T5,
        Card::T6,
        Card::T7,
        Card::T8,
        Card::T9,
        Card::T10,
        Card::T11,
        Card::T12,
        Card::T13,
        Card::T14,
        Card::T15,
        Card::T16,
        Card::T17,
        Card::T18,
        Card::T19,
        Card::T20,
        Card::T21,
        Card::T22,
    ];
    for c in all {
        assert_eq!(Card::from_str(c.to_code()), Ok(c));
        assert_eq!(Card::from_str(&c.to_code().to_lowercase()), Ok(c));
    }
    assert_eq!(Card::UNKNOWN.to_code(), ".");
    assert_eq!(Card::X10.to_code(), "X10");
}

#[test]
fn call_letters_ignore_case() {
    let lower = RUFER.replace("1K/T//", "1k/t//");
    assert_eq!(GameState::from_str(&lower), GameState::from_str(RUFER));
    let g = GameState::decode(&RUFER.replace("1K/T//", "//2u/34v")).unwrap();
    assert!(g.players[2].calls.uhu && g.players[2].calls.ultimo);
    assert!(g.players[3].calls.pelikan && g.players[3].calls.quapil && g.players[3].calls.valat);
    assert!(!g.players[3].calls.trull);
}

#[test]
fn won_tricks_hold_every_trump() {
    let line = ".../...#/T5T19#/#/#/# R1-1- /// - -";
    let g = GameState::decode(line).unwrap();
    assert!(g.players[0].stiche.contains(Card::T5));
    assert!(g.players[0].stiche.contains(Card::T19));
    assert_eq!(g.players[0].stiche.cards[2], None);
}

#[test]
fn noise_around_calls_group_is_refused() {
    let before = RUFER.replace("1K/T//", "x1K/T//");
    assert_eq!(GameState::from_str(&before), Err("Invalid call"));
    let after = RUFER.replace("1K/T//", "1K/T//y");
    assert_eq!(GameState::from_str(&after), Err("Invalid call"));
    let extra = RUFER.replace("1K/T//", "1K/T///");
    assert_eq!(GameState::from_str(&extra), Err("Invalid TAF calls group"));
}

#[test]
fn long_s_is_an_s() {
    assert_eq!(GameType::from_str("\u{17f}"), Ok(GameType::S));
    assert_eq!(GameType::from_str("\u{17f}r"), Ok(GameType::SR));
    assert_eq!(GameType::from_str("\u{17f}pd"), Ok(GameType::SPD));
    let g = GameState::decode(&RUFER.replace("R1XK-1", "\u{17f}r1-1-")).unwrap();
    assert_eq!(g.players[0].calls.typ, Some(GameType::SR));
    assert_eq!(g.players[0].calls.called_king, None);
}

#[test]
fn collection_try_from_cards() {
    let v = vec![Card::HK, Card::T1];
    let c: Result<CardCollection<2>, &'static str> = CardCollection::try_from(&v);
    assert_eq!(c.unwrap().cards, [Some(Card::HK), Some(Card::T1)]);
    let d: Result<CardCollection<3>, &'static str> = CardCollection::try_from(&v);
    assert_eq!(d, Err("Invalid vector length"));
}

#[test]
fn permuted_slots_stay_equal() {
    let a = CardCollection::<5>::decode("H1T5.X10");
    let mut b = a;
    b.cards = [a.cards[4], a.cards[2], a.cards[0], a.cards[3], a.cards[1]];
    assert_eq!(a, b);
    b.cards[4] = Some(Card::H2);
    assert_ne!(a, b);
}

#[test]
fn called_king_is_any_card_code() {
    let g = GameState::decode(".../...#/#/#/#/# R1T11- /// - -").unwrap();
    assert_eq!(g.players[0].calls.typ, Some(GameType::R));
    assert_eq!(g.players[0].calls.called_king, Some(Card::T1));
    assert_eq!(g.players[0].calls.taken_talon, None);
    let g = GameState::decode(".../...#/#/#/#/# R1T1XK-1 /// - -").unwrap();
    assert_eq!(g.players[0].calls.typ, Some(GameType::T));
    assert_eq!(g.players[0].calls.called_king, Some(Card::XK));
    let g = GameState::decode(".../...#/#/#/#/# R1R2R3R4T1212 /// - -").unwrap();
    assert_eq!(g.players[3].calls.typ, Some(GameType::R));
    assert_eq!(g.players[3].calls.called_king, Some(Card::T12));
    assert_eq!(g.players[3].calls.taken_talon, Some(2));
    let g = GameState::decode(".../...#/#/#/#/# B2p1022 /// - -").unwrap();
    assert_eq!(g.players[1].calls.called_king, Some(Card::P10));
    assert_eq!(g.players[1].calls.taken_talon, Some(2));
    assert_eq!(GameState::decode(".../...#/#/#/#/# R1ZZ-1 /// - -"), Err(ParseError::InvalidGameGroup));
}

#[test]
fn collection_describes_itself() {
    let c = CardCollection::<5>::decode("H1.T22");
    assert_eq!(c.describe(), "CardCollection { cards: H1 . T22 + 2 None, excluded:  + 54 None }");
    let e = CardCollection::<12>::new();
    assert_eq!(e.describe(), "CardCollection { cards:  + 12 None, excluded:  + 54 None }");
    let mut d = CardCollection::<1>::decode("x10");
    d.excluded[3] = Some(Card::K4);
    d.excluded[9] = Some(Card::PB);
    assert_eq!(d.describe(), "CardCollection { cards: X10 + 0 None, excluded: K4 PB + 52 None }");
}
