use rand::SeedableRng;
use star_trip::command::{command_of, parse_number, split_words, Command};
use star_trip::grid::{adjacent, index, round_root};
use star_trip::state::{attack_choice, attacks, density_cap, fill_system, step_toward, torpedo_beam};
use star_trip::{DisplayBytes, Entity, GameState, Ship, Terminal};

fn ship(energy: u8, shields: u8, torpedoes: u8, range: u8) -> Ship {
    Ship { energy, shields, torpedoes, range }
}

fn contains(hay: &[u8], needle: &[u8]) -> bool {
    hay.windows(needle.len()).any(|w| w == needle)
}

fn whole_log(state: &GameState) -> Vec<u8> {
    let mut all = Vec::new();
    for i in 0..state.page_count() {
        all.extend_from_slice(state.page(i));
    }
    all
}

#[test]
fn index_formula_and_inverse() {
    assert_eq!(index(0, 0, 0, 0), 0);
    assert_eq!(index(3, 4, 5, 6), 6543);
    assert_eq!(index(9, 9, 9, 9), 9999);
    let mut seen = vec![false; 10000];
    for sy in 0..10 {
        for sx in 0..10 {
            for y in 0..10 {
                for x in 0..10 {
                    let i = index(x, y, sx, sy);
                    assert!(!seen[i]);
                    seen[i] = true;
                    assert_eq!((i % 10, (i / 10) % 10, (i / 100) % 10, i / 1000), (x, y, sx, sy));
                }
            }
        }
    }
}

#[test]
fn adjacency_is_clipped_and_ordered() {
    assert_eq!(adjacent(0, 0), vec![(1, 1), (1, 0), (0, 1)]);
    assert_eq!(adjacent(9, 9), vec![(9, 8), (8, 9), (8, 8)]);
    let mid = adjacent(5, 5);
    assert_eq!(mid.len(), 8);
    assert_eq!(mid[0], (6, 6));
    assert_eq!(mid[7], (4, 4));
    assert!(!mid.contains(&(5, 5)));
}

#[test]
fn spawn_cell_is_empty() {
    for seed in 0..20u64 {
        let state = GameState::new(seed);
        let (x, y, sx, sy) = state.position();
        assert!(state.entity_at(x, y, sx, sy).is_none());
        assert_eq!(state.player(), ship(255, 255, 5, 7));
        assert_eq!(state.mission(), 0);
        assert_eq!(state.date(), 0);
    }
}

#[test]
fn generated_galaxy_respects_caps() {
    let state = GameState::new(42);
    for sy in 0..10 {
        for sx in 0..10 {
            let mut enemies = 0;
            let mut others = 0;
            for y in 0..10 {
                for x in 0..10 {
                    match state.entity_at(x, y, sx, sy) {
                        Some(e) if e.ship().is_some() => {
                            enemies += 1;
                            let s = e.ship().unwrap();
                            assert!(s.energy >= 20 && s.energy < 100);
                            assert!(s.torpedoes >= 1 && s.torpedoes < 5);
                            assert!(s.range >= 2 && s.range < 5);
                        }
                        Some(_) => others += 1,
                        None => {}
                    }
                }
            }
            assert!(enemies <= 4 && others <= 4);
        }
    }
}

#[test]
fn zero_beam_is_no_op() {
    let s = ship(50, 30, 2, 3);
    assert_eq!(GameState::fire(0, s), (0, s));
    assert_eq!(GameState::fire(0, ship(0, 0, 0, 0)), (0, ship(0, 0, 0, 0)));
}

#[test]
fn fire_depletes_shields_first() {
    let s = ship(50, 30, 2, 3);
    assert_eq!(GameState::fire(20, s), (20, ship(50, 10, 2, 3)));
    assert_eq!(GameState::fire(30, s), (30, ship(50, 0, 2, 3)));
    assert_eq!(GameState::fire(40, s), (40, ship(40, 0, 2, 3)));
    assert_eq!(GameState::fire(200, s), (80, ship(0, 0, 2, 3)));
    assert_eq!(GameState::fire(255, ship(200, 200, 0, 0)), (255, ship(145, 0, 0, 0)));
}

#[test]
fn torpedo_beam_values() {
    assert_eq!(torpedo_beam(0), 0);
    assert_eq!(torpedo_beam(1), 60);
    assert_eq!(torpedo_beam(2), 121);
    assert_eq!(torpedo_beam(4), 243);
    assert_eq!(torpedo_beam(5), 255);
    assert_eq!(torpedo_beam(255), 255);
}

#[test]
fn torpedo_count_clamped_to_inventory() {
    let mut state = GameState::empty(1, (0, 0, 0, 0));
    let mut term = Terminal::new();
    state.set_player(ship(255, 255, 2, 7));
    state.place(1, 0, 0, 0, Some(Entity::Berg(ship(90, 90, 0, 0))));
    assert_eq!(state.process_command(b"TORPEDO 5 1 0", &mut term), 0);
    assert_eq!(state.player().torpedoes, 0);
    assert!(contains(&whole_log(&state), b"with 2 torpedo(es),\ninflicting 121 damage!"));
}

#[test]
fn score_of_two_missions_full_ship() {
    let mut state = GameState::empty(2, (0, 0, 0, 0));
    let mut term = Terminal::new();
    for _ in 0..2 {
        state.place(1, 0, 0, 0, Some(Entity::Klargons(ship(1, 0, 0, 0))));
        assert_eq!(state.process_command(b"LASER 10 1 0", &mut term), 0);
    }
    assert_eq!(state.mission(), 2);
    assert_eq!(state.player().energy, 235);
    state.place(0, 1, 0, 0, Some(Entity::Base));
    assert_eq!(state.process_command(b"dock", &mut term), 0);
    assert_eq!(state.player(), ship(255, 255, 5, 7));
    assert_eq!(state.score(100), 1905);
    assert_eq!(state.score(0), 1805);
}

#[test]
fn move_snaps_to_target_and_pays_rounded_distance() {
    assert_eq!(step_toward(0, 0, 5, 5, 8), (5, 5, 7));
    let mut state = GameState::empty(3, (0, 0, 0, 0));
    let mut term = Terminal::new();
    assert_eq!(state.process_command(b"MOVE 8 5 5", &mut term), 0);
    assert_eq!(state.player().energy, 248);
    assert_eq!(state.position(), (5, 5, 0, 0));
}

#[test]
fn move_five_to_five_five_takes_two_steps() {
    assert_eq!(step_toward(0, 0, 5, 5, 5), (4, 4, 5));
    assert_eq!(step_toward(4, 4, 5, 5, 5), (5, 5, 1));
    let mut state = GameState::empty(20, (0, 0, 0, 0));
    let mut term = Terminal::new();
    assert_eq!(state.process_command(b"MOVE 5 5 5", &mut term), 0);
    assert_eq!(state.player().energy, 249);
    assert_eq!(state.position(), (5, 5, 0, 0));
    assert_eq!(state.date(), 2);
}

#[test]
fn move_steps_along_direction() {
    assert_eq!(step_toward(0, 0, 9, 0, 3), (3, 0, 3));
    assert_eq!(step_toward(0, 0, 9, 9, 2), (1, 1, 2));
    assert_eq!(step_toward(9, 9, 0, 0, 2), (8, 8, 2));
    assert_eq!(step_toward(2, 7, 2, 0, 1), (2, 6, 1));
    assert_eq!(round_root(50, 1), 7);
    assert_eq!(round_root(2, 1), 1);
    assert_eq!(round_root(3, 1), 2);
}

#[test]
fn move_between_systems_costs_tenfold() {
    let mut state = GameState::empty(4, (0, 0, 0, 0));
    let mut term = Terminal::new();
    assert_eq!(state.process_command(b"m 1 0 0 1 0", &mut term), 0);
    assert_eq!(state.position(), (0, 0, 1, 0));
    assert_eq!(state.player().energy, 245);
}

#[test]
fn move_rejects_bad_arguments() {
    let mut state = GameState::empty(5, (0, 0, 0, 0));
    let mut term = Terminal::new();
    assert_eq!(state.process_command(b"MOVE 0 5 5", &mut term), 0);
    assert_eq!(state.process_command(b"MOVE 1 5", &mut term), 0);
    assert_eq!(state.player().energy, 255);
    assert_eq!(state.position(), (0, 0, 0, 0));
    assert_eq!(state.date(), 0);
}

#[test]
fn black_hole_is_fatal() {
    let mut state = GameState::empty(6, (0, 0, 0, 0));
    let mut term = Terminal::new();
    state.place(2, 0, 0, 0, Some(Entity::BlackHole));
    assert_eq!(state.process_command(b"MOVE 2 2 0", &mut term), 2);
    assert_eq!(state.player().energy, 0);
}

#[test]
fn attack_decision_follows_range() {
    assert!(attacks(true, 3, 9));
    assert!(!attacks(true, 3, 10));
    assert!(!attacks(false, 3, 1));
    assert!(attacks(true, 2, 4));
    assert!(!attacks(true, 2, 5));
}

#[test]
fn adversary_in_range_attacks() {
    let mut state = GameState::empty(7, (0, 0, 0, 0));
    let mut term = Terminal::new();
    state.place(2, 0, 0, 0, Some(Entity::Remulins(ship(80, 80, 3, 2))));
    assert_eq!(state.process_command(b"investigate", &mut term), 0);
    assert!(contains(&whole_log(&state), b"have attacked!"));
    assert_eq!(state.date(), 1);
}

#[test]
fn adversary_out_of_range_holds_fire() {
    let mut state = GameState::empty(8, (0, 0, 0, 0));
    let mut term = Terminal::new();
    state.place(5, 5, 0, 0, Some(Entity::Faringa(ship(80, 80, 3, 2))));
    for _ in 0..3 {
        assert_eq!(state.process_command(b"investigate", &mut term), 0);
    }
    assert!(!contains(&whole_log(&state), b"have attacked!"));
    assert_eq!(state.player(), ship(255, 255, 5, 7));
    assert!(contains(&whole_log(&state), b"moved to SECTOR"));
}

#[test]
fn docking_protects_from_attack() {
    let mut state = GameState::empty(9, (0, 0, 0, 0));
    let mut term = Terminal::new();
    state.place(1, 1, 0, 0, Some(Entity::Klargons(ship(80, 80, 3, 4))));
    state.place(0, 1, 0, 0, Some(Entity::Base));
    assert_eq!(state.process_command(b"DOCK", &mut term), 0);
    assert_eq!(state.player(), ship(255, 255, 5, 7));
    assert!(!contains(&whole_log(&state), b"have attacked!"));
}

#[test]
fn record_splits_across_one_new_page() {
    let mut state = GameState::empty(10, (0, 0, 0, 0));
    for _ in 0..20 {
        state.record(b"x\n");
    }
    assert_eq!(state.page_count(), 1);
    state.record(b"a\nbc");
    assert_eq!(state.page_count(), 2);
    assert!(state.page(0).ends_with(b"x\na\n"));
    assert_eq!(state.page(1), b"bc");
    assert_eq!(state.final_log(), b"a\nbc");
}

#[test]
fn scan_returns_zero_and_keeps_ship() {
    let mut state = GameState::new(11);
    let mut term = Terminal::new();
    let before = state.player();
    let pos = state.position();
    assert_eq!(state.process_command(b"SCAN", &mut term), 0);
    assert_eq!(state.process_command(b"sc", &mut term), 0);
    assert_eq!(state.player(), before);
    assert_eq!(state.position(), pos);
    assert!(contains(state.final_log(), b"enemies detected in system!"));
    assert!(contains(term.screen(), b"PLAYER:"));
}

#[test]
fn quit_drains_energy() {
    let mut state = GameState::new(12);
    let mut term = Terminal::new();
    assert_eq!(state.process_command(b"QUIT", &mut term), 2);
    assert_eq!(state.player().energy, 0);
    let mut other = GameState::new(12);
    assert_eq!(other.process_command(b"q", &mut term), 2);
}

#[test]
fn mission_threshold_wins() {
    let mut state = GameState::empty(13, (0, 0, 0, 0));
    let mut term = Terminal::new();
    for n in 1..=10usize {
        state.place(0, 1, 0, 0, Some(Entity::Berg(ship(1, 0, 0, 0))));
        let status = state.process_command(b"LASER 1 0 1", &mut term);
        assert_eq!(state.mission(), n);
        if n < 10 {
            assert_eq!(status, 0);
        } else {
            assert_eq!(status, 1);
        }
    }
    state.place(0, 1, 0, 0, Some(Entity::Berg(ship(1, 0, 0, 0))));
    assert_eq!(state.process_command(b"LASER 1 0 1", &mut term), 1);
    assert_eq!(state.mission(), 11);
    assert_eq!(state.process_command(b"SCAN", &mut term), 1);
}

#[test]
fn blank_and_unknown_commands_change_nothing() {
    let mut state = GameState::empty(14, (0, 0, 0, 0));
    let mut term = Terminal::new();
    assert_eq!(state.process_command(b"   \t ", &mut term), 0);
    assert_eq!(state.process_command(b"warp 9", &mut term), 0);
    assert_eq!(state.process_command(b"help", &mut term), 0);
    assert_eq!(state.process_command(b"survey", &mut term), 0);
    assert_eq!(state.process_command(b"LOG 7", &mut term), 0);
    assert_eq!(state.player(), ship(255, 255, 5, 7));
    assert_eq!(state.date(), 0);
}

#[test]
fn weapon_errors_still_cost_a_turn() {
    let mut state = GameState::empty(15, (0, 0, 0, 0));
    let mut term = Terminal::new();
    assert_eq!(state.process_command(b"LASER 10 4 4", &mut term), 0);
    assert!(contains(state.final_log(), b"Nothing to target at (4, 4)!"));
    assert_eq!(state.date(), 1);
    state.place(9, 9, 0, 0, Some(Entity::Klargons(ship(50, 50, 1, 2))));
    assert_eq!(state.process_command(b"LASER 10 9 9", &mut term), 0);
    assert!(contains(&whole_log(&state), b"(9, 9) out of range!"));
    assert_eq!(state.date(), 2);
    assert_eq!(state.player().energy, 255);
    assert_eq!(state.process_command(b"LASER 0 9 9", &mut term), 0);
    assert_eq!(state.date(), 2);
}

#[test]
fn shields_take_energy() {
    let mut state = GameState::empty(16, (0, 0, 0, 0));
    let mut term = Terminal::new();
    state.set_player(ship(200, 100, 5, 7));
    assert_eq!(state.process_command(b"SHIELDS 50", &mut term), 0);
    assert_eq!(state.player(), ship(150, 150, 5, 7));
    assert_eq!(state.process_command(b"SHIELDS 151", &mut term), 0);
    assert_eq!(state.process_command(b"SHIELDS 0", &mut term), 0);
    assert_eq!(state.process_command(b"SHIELDS 300", &mut term), 0);
    assert_eq!(state.player(), ship(150, 150, 5, 7));
    assert_eq!(state.date(), 1);
    state.set_player(ship(250, 200, 5, 7));
    assert_eq!(state.process_command(b"SHIELDS 100", &mut term), 0);
    assert_eq!(state.player(), ship(150, 255, 5, 7));
}

#[test]
fn adversary_never_enters_player_cell() {
    let mut state = GameState::empty(21, (0, 0, 0, 0));
    let mut term = Terminal::new();
    state.place(1, 1, 0, 0, Some(Entity::Klargons(ship(80, 80, 0, 0))));
    for _ in 0..3 {
        assert_eq!(state.process_command(b"investigate", &mut term), 0);
        assert!(state.entity_at(0, 0, 0, 0).is_none());
    }
}

#[test]
fn laser_beam_saturates() {
    let mut state = GameState::empty(22, (0, 0, 0, 0));
    let mut term = Terminal::new();
    state.place(1, 0, 0, 0, Some(Entity::Klargons(ship(200, 200, 0, 0))));
    assert_eq!(state.process_command(b"LASER 256 1 0", &mut term), 2);
    assert_eq!(state.player().energy, 0);
    assert_eq!(state.entity_at(1, 0, 0, 0), Some(Entity::Klargons(ship(145, 0, 0, 0))));
}

#[test]
fn investigate_finds_energy() {
    let mut state = GameState::empty(17, (0, 0, 0, 0));
    let mut term = Terminal::new();
    state.set_player(ship(100, 255, 5, 7));
    state.place(1, 0, 0, 0, Some(Entity::Star));
    assert_eq!(state.process_command(b"I", &mut term), 0);
    assert!(state.player().energy >= 100 && state.player().energy < 200);
    assert!(contains(state.final_log(), b"Investigated nearby Star."));
}

#[test]
fn numeric_arguments_skip_words() {
    assert_eq!(parse_number(b"42"), Some(42));
    assert_eq!(parse_number(b"+7"), Some(7));
    assert_eq!(parse_number(b"+"), None);
    assert_eq!(parse_number(b"-3"), None);
    assert_eq!(parse_number(b"4x"), None);
    assert_eq!(parse_number(b"18446744073709551615"), Some(usize::MAX));
    assert_eq!(parse_number(b"18446744073709551616"), None);
    let words = split_words(b"  MOVE  3\tx 4\n");
    assert_eq!(words, vec![b"MOVE".to_vec(), b"3".to_vec(), b"x".to_vec(), b"4".to_vec()]);
    let mut state = GameState::empty(18, (0, 0, 0, 0));
    let mut term = Terminal::new();
    assert_eq!(state.process_command(b"m +5 abc 5 5", &mut term), 0);
    assert_eq!(state.position(), (5, 5, 0, 0));
}

#[test]
fn command_names_and_aliases() {
    assert_eq!(command_of(b"HeLp"), Command::Help);
    assert_eq!(command_of(b"h"), Command::Help);
    assert_eq!(command_of(b"M"), Command::Move);
    assert_eq!(command_of(b"laser"), Command::Laser);
    assert_eq!(command_of(b"T"), Command::Torpedo);
    assert_eq!(command_of(b"sh"), Command::Shields);
    assert_eq!(command_of(b"SC"), Command::Scan);
    assert_eq!(command_of(b"su"), Command::Survey);
    assert_eq!(command_of(b"i"), Command::Investigate);
    assert_eq!(command_of(b"D"), Command::Dock);
    assert_eq!(command_of(b"log"), Command::Log);
    assert_eq!(command_of(b"Q"), Command::Quit);
    assert_eq!(command_of(b"lo"), Command::Unknown);
}

#[test]
fn entity_update_and_names() {
    let s = ship(1, 2, 3, 4);
    assert_eq!(Entity::Star.update(s), None);
    assert_eq!(Entity::Klargons(ship(9, 9, 9, 9)).update(s), Some(Entity::Klargons(s)));
    assert_eq!(Entity::Berg(ship(9, 9, 9, 9)).update(s), Some(Entity::Berg(s)));
    assert_eq!(Entity::BlackHole.display_bytes(), b"Black hole".to_vec());
    assert_eq!(Entity::Faringa(s).display_bytes(), b"Faringa".to_vec());
    assert_eq!(0usize.display_bytes(), b"0".to_vec());
    assert_eq!(1234usize.display_bytes(), b"1234".to_vec());
    assert_eq!(255u8.display_bytes(), b"255".to_vec());
}

#[test]
fn enemy_stats_in_range() {
    let mut rng = rand::rngs::StdRng::seed_from_u64(3);
    let mut energies = std::collections::HashSet::new();
    for _ in 0..50 {
        let s = Ship::enemy(&mut rng);
        assert!(s.energy >= 20 && s.energy < 100);
        assert!(s.shields >= 20 && s.shields < 100);
        assert!(s.torpedoes >= 1 && s.torpedoes < 5);
        assert!(s.range >= 2 && s.range < 5);
        energies.insert(s.energy);
    }
    assert!(energies.len() > 1);
}

#[test]
fn log_pages() {
    let mut state = GameState::empty(19, (0, 0, 0, 0));
    let mut term = Terminal::new();
    state.record(b"first entry\n");
    assert_eq!(state.process_command(b"LOG", &mut term), 0);
    assert!(term.screen().starts_with(b"Captain's Log [1 / 1]"));
    assert_eq!(state.process_command(b"LOG 1", &mut term), 0);
    assert!(contains(term.screen(), b"first entry"));
    assert_eq!(state.process_command(b"LOG 2", &mut term), 0);
    assert!(term.screen().starts_with(b"Log page not found!"));
}

#[test]
fn attack_choice_pays_for_the_beam() {
    let s = ship(80, 40, 3, 2);
    assert_eq!(attack_choice(s, true, 25), (25, ship(55, 40, 3, 2)));
    assert_eq!(attack_choice(s, false, 2), (100, ship(80, 40, 1, 2)));
    assert_eq!(attack_choice(ship(80, 40, 9, 2), false, 6), (255, ship(80, 40, 3, 2)));
    assert_eq!(attack_choice(s, false, 0), (0, s));
}

#[test]
fn density_caps() {
    assert_eq!(density_cap(0), 0);
    assert_eq!(density_cap(203), 0);
    assert_eq!(density_cap(204), 1);
    assert_eq!(density_cap(999), 4);
}

#[test]
fn fill_system_respects_caps_in_order() {
    let e = Some(Entity::Klargons(ship(30, 30, 2, 3)));
    let b = Some(Entity::Star);
    let draws = vec![e, b, e, None, b, e];
    assert_eq!(fill_system(&draws, 2, 1), vec![e, b, e, None, None, None]);
    assert_eq!(fill_system(&draws, 0, 0), vec![None; 6]);
}
