use vstd::prelude::*;
use vstd::slice::slice_to_vec;
use vstd::string::StringSliceAdditionalSpecFns;
use rand::rngs::StdRng;
use crate::command::{command_of, command_spec, numbers, numeric_args, split_words, words, Command};
use crate::constants::{CELLS, DENSITY_PER_MILLE, DIFFICULTY, MISSION, PAGE_LINES, SECTORS, SYSTEMS, SYSTEM_CELLS};
use crate::display::{push_num, push_str, DisplayBytes};
use crate::entity::{Entity, Ship};
use crate::grid::{adjacent, coord_ok, dist2, distance_squared, index, index_spec, round_root, round_spec, rounds_to};
use crate::random::{coin, random_below, random_or_low, seeded_rng, shuffle_cells};
use crate::ui::Terminal;
use crate::logbook::{extends, lemma_extends_trans, lemma_record_extends, newlines, push_byte, record_spec};

verus! {

/// The current state of the game including the player stats
/// and the state of all entities throughout the galaxy
pub struct GameState {
    galaxy: Vec<Option<Entity>>,
    logbook: Vec<Vec<u8>>,
    last_entry: Vec<u8>,
    page: usize,
    position: (usize, usize, usize, usize),
    player: Ship,
    mission: usize,
    date: usize,
    rng: StdRng,
}

/// Damage dealt by a beam: the beam, but no more than the ship can absorb
pub open spec fn damage_spec(beam: u8, ship: Ship) -> int {
    let total = ship.energy + ship.shields;
    if beam < total { beam as int } else { total }
}

/// The ship after a beam: shields absorb the damage first, the rest drains energy
pub open spec fn fired_spec(beam: u8, ship: Ship) -> Ship {
    let damage = damage_spec(beam, ship);
    if ship.shields > damage {
        Ship { shields: (ship.shields - damage) as u8, ..ship }
    } else {
        Ship { shields: 0, energy: (ship.energy - (damage - ship.shields)) as u8, ..ship }
    }
}

/// Beam of a volley of `number` torpedoes: 100 each, down-weighted by the difficulty,
/// and no more than a byte can carry
pub open spec fn torpedo_beam_spec(number: u8) -> u8 {
    let b = number * 100 * (255 - DIFFICULTY) / 255;
    if b > 255 { 255 } else { b as u8 }
}

/// Beam of `number` enemy torpedoes: 50 each, saturating at a byte
pub open spec fn enemy_torpedo_beam(number: u8) -> u8 {
    if number * 50 > 255 { 255 } else { (number * 50) as u8 }
}

/// An adversary with weapon range `range` reaches a target at squared distance `d2`
pub open spec fn reaches(range: u8, d2: int) -> bool {
    range * range >= d2
}

/// The adversary `after` has paid for an attack with beam `beam`: a laser salvo spends
/// energy drawn from [energy/4, energy/2) (energy/4 when that range is empty); a torpedo
/// volley spends a count drawn from [0, torpedoes) (none when it has none), 50 beam each
pub open spec fn paid_for(before: Ship, beam: u8, after: Ship) -> bool {
    ||| after == Ship { energy: (before.energy - beam) as u8, ..before }
        && before.energy / 4 <= beam
        && (beam < before.energy / 2 || beam == before.energy / 4)
    ||| after == Ship { torpedoes: after.torpedoes, ..before } && after.torpedoes <= before.torpedoes
        && (after.torpedoes > 0 || before.torpedoes == 0)
        && beam == enemy_torpedo_beam((before.torpedoes - after.torpedoes) as u8)
}

/// `a` has no more energy or shields than `b`, and the same torpedoes and range
pub open spec fn worn(a: Ship, b: Ship) -> bool {
    a.energy <= b.energy && a.shields <= b.shields && a.torpedoes == b.torpedoes && a.range == b.range
}

pub open spec fn inc(n: usize) -> usize {
    if n < usize::MAX { (n + 1) as usize } else { n }
}

/// Beam of a volley of `number` torpedoes
pub fn torpedo_beam(number: u8) -> (r: u8)
    ensures
        r == torpedo_beam_spec(number),
{
    let n: u32 = number as u32;
    assert(n * 100 * 155 <= 255 * 100 * 155) by (nonlinear_arith)
        requires n <= 255;
    let b: u32 = n * 100 * (255 - DIFFICULTY as u32) / 255;
    if b > 255 { 255 } else { b as u8 }
}

/// Whether an adversary attacks this pass: only a hostile pass, and only within its range
pub fn attacks(hostile: bool, range: u8, d2: u64) -> (r: bool)
    ensures
        r == (hostile && reaches(range, d2 as int)),
{
    let r: u64 = range as u64;
    assert(r * r <= 255 * 255) by (nonlinear_arith)
        requires r <= 255;
    hostile && r * r >= d2
}

/// An adversary's attack with the drawn choice and amount: a laser salvo of `amount`
/// energy, or a volley of `amount` torpedoes at 50 beam each (saturating). Returns the
/// beam and the adversary's ship after paying for it.
pub fn attack_choice(ship: Ship, laser: bool, amount: u8) -> (r: (u8, Ship))
    requires
        laser ==> amount <= ship.energy,
        !laser ==> amount <= ship.torpedoes,
    ensures
        laser ==> r == (amount, Ship { energy: (ship.energy - amount) as u8, ..ship }),
        !laser ==> r == (enemy_torpedo_beam(amount), Ship { torpedoes: (ship.torpedoes - amount) as u8, ..ship }),
{
    if laser {
        (amount, Ship { energy: ship.energy - amount, ..ship })
    } else {
        let beam: u8 = if amount > 5 { 255 } else { amount * 50 };
        (beam, Ship { torpedoes: ship.torpedoes - amount, ..ship })
    }
}

/// An adversary's attack decision: `Some((beam, ship))` when it attacks, with the beam it
/// fires and its ship after paying for it
pub fn engage(rng: &mut StdRng, hostile: bool, d2: u64, ship: Ship) -> (r: Option<(u8, Ship)>)
    ensures
        r is Some <==> hostile && reaches(ship.range, d2 as int),
        r is Some ==> paid_for(ship, r.unwrap().0, r.unwrap().1),
{
    if attacks(hostile, ship.range, d2) {
        let laser = coin(rng);
        let amount = if laser {
            random_or_low(rng, ship.energy / 4, ship.energy / 2)
        } else {
            random_or_low(rng, 0, ship.torpedoes)
        };
        Some(attack_choice(ship, laser, amount))
    } else {
        None
    }
}

/// One movement step from (x, y) towards (tx, ty) at speed `s`: the new coordinates and
/// the distance paid for (see `step_toward`)
pub open spec fn step_spec(x: int, y: int, tx: int, ty: int, s: int) -> (int, int, int) {
    let d2 = dist2(x, y, tx, ty);
    if s * s > d2 {
        (tx, ty, round_spec(d2, 1))
    } else {
        let kx = round_spec(s * s * (tx - x) * (tx - x), d2);
        let ky = round_spec(s * s * (ty - y) * (ty - y), d2);
        (if tx >= x { x + kx } else { x - kx }, if ty >= y { y + ky } else { y - ky }, s)
    }
}

/// Total distance paid for by the steps from (x, y) to (tx, ty) at speed `s`, at most
/// `fuel` of them
pub open spec fn path_cost(x: int, y: int, tx: int, ty: int, s: int, fuel: nat) -> nat
    decreases fuel,
{
    if fuel == 0 || (x == tx && y == ty) {
        0
    } else {
        let st = step_spec(x, y, tx, ty, s);
        (if st.2 >= 0 { st.2 as nat } else { 0nat }) + path_cost(st.0, st.1, tx, ty, s, (fuel - 1) as nat)
    }
}

/// Number of steps from (x, y) to (tx, ty) at speed `s`, at most `fuel`
pub open spec fn path_steps(x: int, y: int, tx: int, ty: int, s: int, fuel: nat) -> nat
    decreases fuel,
{
    if fuel == 0 || (x == tx && y == ty) {
        0
    } else {
        let st = step_spec(x, y, tx, ty, s);
        1 + path_steps(st.0, st.1, tx, ty, s, (fuel - 1) as nat)
    }
}

/// Some step of the path from (x, y) to (tx, ty) in system (sx, sy) lands on a black hole
pub open spec fn path_hits_black_hole(g: Seq<Option<Entity>>, x: int, y: int, tx: int, ty: int, s: int, sx: int, sy: int, fuel: nat) -> bool
    decreases fuel,
{
    if fuel == 0 || (x == tx && y == ty) {
        false
    } else {
        let st = step_spec(x, y, tx, ty, s);
        g[index_spec(st.0, st.1, sx, sy)] == Some(Entity::BlackHole)
            || path_hits_black_hole(g, st.0, st.1, tx, ty, s, sx, sy, (fuel - 1) as nat)
    }
}

/// Every step of the path from (x, y) to (tx, ty) in system (sx, sy) lands on an empty cell
pub open spec fn path_clear(g: Seq<Option<Entity>>, x: int, y: int, tx: int, ty: int, s: int, sx: int, sy: int, fuel: nat) -> bool
    decreases fuel,
{
    if fuel == 0 || (x == tx && y == ty) {
        true
    } else {
        let st = step_spec(x, y, tx, ty, s);
        g[index_spec(st.0, st.1, sx, sy)] is None && path_clear(g, st.0, st.1, tx, ty, s, sx, sy, (fuel - 1) as nat)
    }
}

/// `e` less `c`, but not below zero
pub open spec fn sat_sub(e: int, c: int) -> int {
    if e > c { e - c } else { 0 }
}

/// One movement step from (x, y) towards (tx, ty) at `speed`: returns the new sector and
/// the distance paid for. A step longer than the remaining distance lands on the target
/// and costs that distance rounded; otherwise each axis advances by `speed` times its
/// share of the direction, rounded, and the step costs `speed`.
pub fn step_toward(x: usize, y: usize, tx: usize, ty: usize, speed: usize) -> (r: (usize, usize, u8))
    requires
        x < SECTORS, y < SECTORS, tx < SECTORS, ty < SECTORS,
        x != tx || y != ty,
        speed > 0,
    ensures
        r.0 < SECTORS, r.1 < SECTORS,
        1 <= r.2 <= 20,
        (r.0 as int, r.1 as int, r.2 as int) == step_spec(x as int, y as int, tx as int, ty as int, speed as int),
        speed * speed > dist2(x as int, y as int, tx as int, ty as int) ==> r.0 == tx && r.1 == ty
            && rounds_to(r.2 as int, dist2(x as int, y as int, tx as int, ty as int), 1),
        speed * speed <= dist2(x as int, y as int, tx as int, ty as int) ==> {
            let d2 = dist2(x as int, y as int, tx as int, ty as int);
            &&& r.2 == speed
            &&& rounds_to(if tx >= x { r.0 - x } else { x - r.0 }, speed * speed * (tx - x) * (tx - x), d2)
            &&& rounds_to(if ty >= y { r.1 - y } else { y - r.1 }, speed * speed * (ty - y) * (ty - y), d2)
            &&& (tx >= x ==> x <= r.0 <= tx) &&& (tx < x ==> tx <= r.0 <= x)
            &&& (ty >= y ==> y <= r.1 <= ty) &&& (ty < y ==> ty <= r.1 <= y)
        },
{
    let d2 = distance_squared(x, y, tx, ty);
    assert(d2 >= 1) by (nonlinear_arith)
        requires d2 == (tx - x) * (tx - x) + (ty - y) * (ty - y), x != tx || y != ty;
    let far: bool = if speed > 12 {
        true
    } else {
        assert(speed * speed <= 144) by (nonlinear_arith)
            requires speed <= 12;
        (speed * speed) as u64 > d2
    };
    if far {
        assert(speed * speed > d2) by (nonlinear_arith)
            requires speed > 12 || speed * speed > d2, d2 <= 162;
        let k = round_root(d2, 1);
        assert(k >= 1) by (nonlinear_arith)
            requires rounds_to(k as int, d2 as int, 1), d2 >= 1;
        (tx, ty, k as u8)
    } else {
        let s: u64 = speed as u64;
        assert(s * s <= d2);
        let dx: u64 = if tx >= x { (tx - x) as u64 } else { (x - tx) as u64 };
        let dy: u64 = if ty >= y { (ty - y) as u64 } else { (y - ty) as u64 };
        assert(s * s * dx * dx <= 400 * d2 && s * s * dy * dy <= 400 * d2) by (nonlinear_arith)
            requires s * s <= d2, dx < 10, dy < 10;
        assert(dx * dx == (tx - x) * (tx - x) && dy * dy == (ty - y) * (ty - y)) by (nonlinear_arith)
            requires dx == tx - x || dx == x - tx, dy == ty - y || dy == y - ty;
        assert(s * s * dx * dx <= 162 * 81) by (nonlinear_arith)
            requires s * s <= d2, d2 <= 162, dx < 10;
        assert(s * s * dy * dy <= 162 * 81) by (nonlinear_arith)
            requires s * s <= d2, d2 <= 162, dy < 10;
        let s2: u64 = s * s;
        assert(dx * dx <= 81 && dy * dy <= 81) by (nonlinear_arith)
            requires dx < 10, dy < 10;
        let dx2: u64 = dx * dx;
        let dy2: u64 = dy * dy;
        assert(s2 * dx2 == s * s * dx * dx && s2 * dy2 == s * s * dy * dy) by (nonlinear_arith)
            requires s2 == s * s, dx2 == dx * dx, dy2 == dy * dy;
        let kx = round_root(s2 * dx2, d2);
        let ky = round_root(s2 * dy2, d2);
        assert(kx <= dx) by (nonlinear_arith)
            requires rounds_to(kx as int, s * s * dx * dx, d2 as int), s * s <= d2, d2 >= 1;
        assert(ky <= dy) by (nonlinear_arith)
            requires rounds_to(ky as int, s * s * dy * dy, d2 as int), s * s <= d2, d2 >= 1;
        let nx: usize = if tx >= x { x + kx as usize } else { x - kx as usize };
        let ny: usize = if ty >= y { y + ky as usize } else { y - ky as usize };
        assert(speed * speed * (tx - x) * (tx - x) == s * s * dx * dx) by (nonlinear_arith)
            requires s == speed, dx * dx == (tx - x) * (tx - x);
        assert(speed * speed * (ty - y) * (ty - y) == s * s * dy * dy) by (nonlinear_arith)
            requires s == speed, dy * dy == (ty - y) * (ty - y);
        (nx, ny, speed as u8)
    }
}

/// A weapon of the player's ship
#[derive(Clone, Copy, PartialEq, Eq, Structural, Debug)]
pub enum Weapon {
    Laser,
    Torpedo,
}

/// The player's weapons reach a target at squared distance `d2`: the distance rounded
/// down is within the weapon range
pub open spec fn in_weapon_range(range: u8, d2: int) -> bool {
    d2 < (range + 1) * (range + 1)
}

/// What `investigate` looks for
pub open spec fn interesting(e: Entity) -> bool {
    e == Entity::Planet || e == Entity::Star || e == Entity::BlackHole
}

/// What `nearby` looks for: a base, or an interesting body
pub open spec fn sought(e: Option<Entity>, base: bool) -> bool {
    match e {
        Some(e) => if base { e == Entity::Base } else { interesting(e) },
        None => false,
    }
}

fn is_sought(e: Option<Entity>, base: bool) -> (r: bool)
    ensures
        r == sought(e, base),
{
    match e {
        Some(Entity::Base) => base,
        Some(Entity::Planet) => !base,
        Some(Entity::Star) => !base,
        Some(Entity::BlackHole) => !base,
        _ => false,
    }
}

/// Status of the game: 1 once the mission count has reached the goal, 2 once the player's ship has
/// no energy left, 0 while play goes on
pub open spec fn status_spec(mission: usize, energy: u8) -> u8 {
    if mission >= MISSION { 1 } else if energy == 0 { 2 } else { 0 }
}

/// The score: five times the square of the mission count, the date bonus, and four and
/// three points for each unit of energy and shields
pub open spec fn score_spec(mission: int, date_bonus: int, energy: int, shields: int) -> int {
    5 * mission * mission + date_bonus + 4 * energy + 3 * shields
}

/// One cell's draw admitted under the caps: an adversary enters while fewer than `emax`
/// have, an environmental body while fewer than `omax` have; returns the cell and the
/// new counts
pub open spec fn admit_spec(drawn: Option<Entity>, en: nat, ot: nat, emax: nat, omax: nat) -> (Option<Entity>, nat, nat) {
    match drawn {
        None => (None, en, ot),
        Some(e) => if e.is_adversary() {
            if en < emax { (Some(e), en + 1, ot) } else { (None, en, ot) }
        } else {
            if ot < omax { (Some(e), en, ot + 1) } else { (None, en, ot) }
        },
    }
}

/// A system filled from its draws in row-major order: the cells and the counts of
/// adversaries and environmental bodies admitted
pub open spec fn fill_spec(draws: Seq<Option<Entity>>, emax: nat, omax: nat) -> (Seq<Option<Entity>>, nat, nat)
    decreases draws.len(),
{
    if draws.len() == 0 {
        (seq![], 0, 0)
    } else {
        let (cells, en, ot) = fill_spec(draws.drop_last(), emax, omax);
        let (c, en2, ot2) = admit_spec(draws.last(), en, ot, emax, omax);
        (cells.push(c), en2, ot2)
    }
}

pub open spec fn is_adversary_cell(c: Option<Entity>) -> bool {
    c matches Some(e) && e.is_adversary()
}

pub open spec fn is_body_cell(c: Option<Entity>) -> bool {
    c matches Some(e) && !e.is_adversary()
}

/// Number of adversaries among the cells
pub open spec fn adversary_count(s: Seq<Option<Entity>>) -> nat
    decreases s.len(),
{
    if s.len() == 0 { 0 } else { adversary_count(s.drop_last()) + if is_adversary_cell(s.last()) { 1nat } else { 0nat } }
}

/// Number of environmental bodies among the cells
pub open spec fn body_count(s: Seq<Option<Entity>>) -> nat
    decreases s.len(),
{
    if s.len() == 0 { 0 } else { body_count(s.drop_last()) + if is_body_cell(s.last()) { 1nat } else { 0nat } }
}

/// Every adversary among the cells has the stats of a freshly generated enemy
pub open spec fn fresh_adversaries(s: Seq<Option<Entity>>) -> bool {
    forall|k: int| 0 <= k < s.len() && #[trigger] is_adversary_cell(s[k]) ==> s[k].unwrap().ship_spec().unwrap().is_fresh_enemy()
}

/// A system's cells within the caps of generation: at most 4 adversaries and 4 bodies,
/// all adversaries fresh
pub open spec fn capped(s: Seq<Option<Entity>>) -> bool {
    adversary_count(s) <= 4 && body_count(s) <= 4 && fresh_adversaries(s)
}

/// System `t` of the galaxy `g` holds the cells of a capped block, in some order
pub open spec fn system_capped(g: Seq<Option<Entity>>, t: int) -> bool {
    exists|b: Seq<Option<Entity>>| capped(b) && g.subrange(t * 100, t * 100 + 100).to_multiset() == b.to_multiset()
}

/// A galaxy as generation leaves it: every system within the caps, every adversary fresh
pub open spec fn generated(g: Seq<Option<Entity>>) -> bool {
    &&& g.len() == CELLS
    &&& forall|s: int| 0 <= s < SYSTEMS * SYSTEMS ==> #[trigger] system_capped(g, s)
    &&& fresh_adversaries(g)
}

/// Fills a system from its draws in row-major order under the caps
pub fn fill_system(draws: &Vec<Option<Entity>>, emax: u64, omax: u64) -> (r: Vec<Option<Entity>>)
    ensures
        r@ == fill_spec(draws@, emax as nat, omax as nat).0,
        r@.len() == draws@.len(),
        adversary_count(r@) == fill_spec(draws@, emax as nat, omax as nat).1 <= emax,
        body_count(r@) == fill_spec(draws@, emax as nat, omax as nat).2 <= omax,
        forall|k: int| 0 <= k < r@.len() ==> r@[k] is None || r@[k] == draws@[k],
{
    let mut cells: Vec<Option<Entity>> = Vec::new();
    let mut enemies: u64 = 0;
    let mut others: u64 = 0;
    let mut k: usize = 0;
    while k < draws.len()
        invariant
            k <= draws@.len(),
            fill_spec(draws@.subrange(0, k as int), emax as nat, omax as nat) == (cells@, enemies as nat, others as nat),
            adversary_count(cells@) == enemies <= emax,
            body_count(cells@) == others <= omax,
            cells@.len() == k,
            forall|q: int| 0 <= q < k ==> cells@[q] is None || cells@[q] == draws@[q],
        decreases draws@.len() - k,
    {
        assert(draws@.subrange(0, k + 1).drop_last() =~= draws@.subrange(0, k as int));
        let ghost before = cells@;
        let drawn = draws[k];
        let mut cell: Option<Entity> = None;
        match drawn {
            Some(e) => {
                if e.ship().is_some() {
                    if enemies < emax {
                        enemies = enemies + 1;
                        cell = Some(e);
                    }
                } else if others < omax {
                    others = others + 1;
                    cell = Some(e);
                }
            },
            None => {},
        }
        cells.push(cell);
        assert(cells@.drop_last() =~= before);
        k = k + 1;
    }
    assert(draws@.subrange(0, k as int) =~= draws@);
    cells
}

/// Draws one system's cells: each holds a uniformly chosen entity with probability 1/5
fn draw_system(rng: &mut StdRng) -> (r: Vec<Option<Entity>>)
    ensures
        r@.len() == SYSTEM_CELLS,
        fresh_adversaries(r@),
{
    let mut draws: Vec<Option<Entity>> = Vec::new();
    while draws.len() < SYSTEM_CELLS
        invariant
            draws@.len() <= SYSTEM_CELLS,
            fresh_adversaries(draws@),
        decreases SYSTEM_CELLS - draws@.len(),
    {
        let mut cell: Option<Entity> = None;
        if random_below(rng, 5) == 0 {
            cell = Some(Entity::random(rng));
        }
        draws.push(cell);
    }
    draws
}

/// A system's cap on entities of one class, `⌊9·u·d⌋`, for a draw `u` in [0, 1) given in
/// thousandths and the density `d`
pub open spec fn cap_spec(u: int) -> int {
    9 * u * DENSITY_PER_MILLE / 1_000_000
}

/// A system's cap on entities of one class, for a draw `u` in thousandths
pub fn density_cap(u: u64) -> (r: u64)
    requires
        u < 1000,
    ensures
        r == cap_spec(u as int),
        r <= 4,
{
    assert(9 * u * DENSITY_PER_MILLE <= 9 * 999 * 545) by (nonlinear_arith)
        requires u < 1000, DENSITY_PER_MILLE == 545;
    9 * u * DENSITY_PER_MILLE / 1_000_000
}

/// Generates one system: caps `⌊9·u·d⌋` for adversaries and for bodies, from draws `u` in
/// [0, 1) taken in thousandths and the density `d`, then the cells filled in row-major order
fn generate_system(rng: &mut StdRng) -> (r: Vec<Option<Entity>>)
    ensures
        r@.len() == SYSTEM_CELLS,
        capped(r@),
        exists|draws: Seq<Option<Entity>>, ue: int, uo: int| 0 <= ue < 1000 && 0 <= uo < 1000
            && r@ == #[trigger] fill_spec(draws, cap_spec(ue) as nat, cap_spec(uo) as nat).0,
{
    let u_e = random_below(rng, 1000);
    let u_o = random_below(rng, 1000);
    let emax = density_cap(u_e);
    let omax = density_cap(u_o);
    let draws = draw_system(rng);
    let r = fill_system(&draws, emax, omax);
    assert(fresh_adversaries(r@)) by {
        assert forall|k: int| 0 <= k < r@.len() && #[trigger] is_adversary_cell(r@[k]) implies r@[k].unwrap().ship_spec().unwrap().is_fresh_enemy() by {
            assert(is_adversary_cell(draws@[k]));
        }
    }
    assert(r@ == fill_spec(draws@, cap_spec(u_e as int) as nat, cap_spec(u_o as int) as nat).0);
    r
}

/// Randomly generate a galaxy full of enemies and other entities: each system is filled
/// and then shuffled, so that the order of filling leaves no trace in where entities sit.
/// Each system holds the cells of a capped block, in some order.
fn generate_galaxy(rng: &mut StdRng) -> (r: Vec<Option<Entity>>)
    ensures
        r@.len() == CELLS,
        forall|s: int| 0 <= s < SYSTEMS * SYSTEMS ==> #[trigger] system_capped(r@, s),
        forall|c: int| 0 <= c < CELLS && #[trigger] is_adversary_cell(r@[c]) ==> r@[c].unwrap().ship_spec().unwrap().is_fresh_enemy(),
{
    let mut galaxy: Vec<Option<Entity>> = Vec::new();
    let mut s: usize = 0;
    while s < SYSTEMS * SYSTEMS
        invariant
            s <= SYSTEMS * SYSTEMS,
            galaxy@.len() == s * SYSTEM_CELLS,
            forall|t: int| 0 <= t < s ==> #[trigger] system_capped(galaxy@, t),
            fresh_adversaries(galaxy@),
        decreases SYSTEMS * SYSTEMS - s,
    {
        let mut block = generate_system(rng);
        let ghost before = block@;
        shuffle_cells(rng, &mut block);
        proof {
            before.to_multiset_ensures();
            block@.to_multiset_ensures();
            assert forall|k: int| 0 <= k < block@.len() && #[trigger] is_adversary_cell(block@[k]) implies
                block@[k].unwrap().ship_spec().unwrap().is_fresh_enemy() by {
                assert(block@.contains(block@[k]));
                assert(block@.to_multiset().count(block@[k]) > 0);
                let q = choose|q: int| 0 <= q < before.len() && before[q] == block@[k];
                assert(is_adversary_cell(before[q]));
            }
        }
        let ghost start = galaxy@;
        let mut k: usize = 0;
        while k < SYSTEM_CELLS
            invariant
                k <= SYSTEM_CELLS,
                s < SYSTEMS * SYSTEMS,
                block@.len() == SYSTEM_CELLS,
                galaxy@ == start + block@.subrange(0, k as int),
                start.len() == s * SYSTEM_CELLS,
                fresh_adversaries(start),
                fresh_adversaries(block@),
            decreases SYSTEM_CELLS - k,
        {
            galaxy.push(block[k]);
            k = k + 1;
            assert(galaxy@ =~= start + block@.subrange(0, k as int));
        }
        proof {
            assert(block@.subrange(0, k as int) =~= block@);
            assert(galaxy@.subrange(s * 100, s * 100 + 100) =~= block@);
            assert forall|t: int| 0 <= t < s + 1 implies #[trigger] system_capped(galaxy@, t) by {
                if t < s {
                    assert(galaxy@.subrange(t * 100, t * 100 + 100) =~= start.subrange(t * 100, t * 100 + 100));
                    assert(system_capped(start, t));
                } else {
                    assert(capped(before));
                    assert(galaxy@.subrange(t * 100, t * 100 + 100).to_multiset() == before.to_multiset());
                }
            }
            assert forall|c: int| 0 <= c < galaxy@.len() && #[trigger] is_adversary_cell(galaxy@[c]) implies
                galaxy@[c].unwrap().ship_spec().unwrap().is_fresh_enemy() by {
                if c >= start.len() {
                    assert(galaxy@[c] == block@[c - start.len()]);
                }
            }
        }
        s = s + 1;
    }
    galaxy
}

/// A beam of zero deals no damage and leaves the ship as it was; any beam deals exactly
/// the smaller of itself and the ship's energy plus shields.
pub proof fn lemma_fire_damage(beam: u8, ship: Ship)
    ensures
        damage_spec(0, ship) == 0,
        fired_spec(0, ship) == ship,
        damage_spec(beam, ship) == if (beam as int) < ship.energy + ship.shields { beam as int } else {
            ship.energy + ship.shields
        },
{
}

/// Cell `c` lies in system (sx, sy)
pub open spec fn in_system(c: int, sx: int, sy: int) -> bool {
    100 * (sx + 10 * sy) <= c < 100 * (sx + 10 * sy) + 100
}

/// `after` keeps what an evolution pass in system (sx, sy) must keep of `before`: cells of
/// other systems, environmental bodies, and the player's cell `pc` if it was empty
pub open spec fn kept(after: Seq<Option<Entity>>, before: Seq<Option<Entity>>, sx: int, sy: int, pc: int) -> bool {
    &&& after.len() == before.len()
    &&& forall|c: int| 0 <= c < before.len() && !in_system(c, sx, sy) ==> #[trigger] after[c] == before[c]
    &&& forall|c: int| 0 <= c < before.len() && (#[trigger] before[c] matches Some(e) && !e.is_adversary())
        ==> after[c] == before[c]
    &&& forall|c: int| 0 <= c < before.len() && (#[trigger] after[c] matches Some(e) && !e.is_adversary())
        ==> after[c] == before[c]
    &&& before[pc] is None ==> after[pc] is None
}

pub proof fn lemma_kept_trans(a: Seq<Option<Entity>>, b: Seq<Option<Entity>>, c: Seq<Option<Entity>>, sx: int, sy: int, pc: int)
    requires
        kept(b, a, sx, sy, pc),
        kept(c, b, sx, sy, pc),
    ensures
        kept(c, a, sx, sy, pc),
{
    assert forall|q: int| 0 <= q < a.len() && (#[trigger] a[q] matches Some(e) && !e.is_adversary()) implies c[q] == a[q] by {
        assert(b[q] == a[q]);
    }
    assert forall|q: int| 0 <= q < a.len() && (#[trigger] c[q] matches Some(e) && !e.is_adversary()) implies c[q] == a[q] by {
        assert(c[q] == b[q]);
    }
}

/// Cell (j, i) of system (sx, sy) holds an adversary and is not the player's (px, py)
pub open spec fn counted(g: Seq<Option<Entity>>, sx: int, sy: int, px: int, py: int, j: int, i: int) -> bool {
    !(j == px && i == py) && (g[index_spec(j, i, sx, sy)] matches Some(e) && e.is_adversary())
}

/// Adversaries in the first `j` cells of row `i` of system (sx, sy), the player's cell aside
pub open spec fn row_count(g: Seq<Option<Entity>>, sx: int, sy: int, px: int, py: int, i: int, j: int) -> nat
    decreases j,
{
    if j <= 0 {
        0
    } else {
        row_count(g, sx, sy, px, py, i, j - 1) + if counted(g, sx, sy, px, py, j - 1, i) { 1nat } else { 0nat }
    }
}

/// Adversaries in the first `i` rows of system (sx, sy), the player's cell aside
pub open spec fn system_count(g: Seq<Option<Entity>>, sx: int, sy: int, px: int, py: int, i: int) -> nat
    decreases i,
{
    if i <= 0 {
        0
    } else {
        system_count(g, sx, sy, px, py, i - 1) + row_count(g, sx, sy, px, py, i - 1, 10)
    }
}

/// The log entry of a scan that found `n` adversaries
pub open spec fn scan_entry(n: nat) -> Seq<u8> {
    "\nScan completed: ".spec_bytes() + crate::display::decimal(n) + " enemies detected in system!\n".spec_bytes()
}

/// The ship after gaining `g` units of energy, saturating at 255
pub open spec fn energized(p: Ship, g: u8) -> Ship {
    Ship { energy: if p.energy + g > 255 { 255 } else { (p.energy + g) as u8 }, ..p }
}

/// The log entry of an adversary's destruction
pub open spec fn destroyed_entry(e: Entity) -> Seq<u8> {
    "\nEnemy ".spec_bytes() + e.display_view() + " destroyed!\n".spec_bytes()
}

/// The message of a laser hit
pub open spec fn laser_message(e: Entity, damage: u8, destroyed: bool) -> Seq<u8> {
    "\nHit ".spec_bytes() + e.display_view() + " with lasers inflicting ".spec_bytes()
        + crate::display::decimal(damage as nat) + " damage!\n".spec_bytes()
        + if destroyed { "Their ship has been destroyed.\n".spec_bytes() } else { Seq::<u8>::empty() }
}

/// The screen of a log page: its number, the page count, then the page
pub open spec fn log_screen(number: nat, count: nat, page: Seq<u8>) -> Seq<u8> {
    "Captain's Log [".spec_bytes() + crate::display::decimal(number) + " / ".spec_bytes()
        + crate::display::decimal(count) + "]\n\n".spec_bytes() + page
}

/// An adversary at (j, i) in system (sx, sy) may step to (n, m): the cell is empty, is not
/// the player's (px, py), lies strictly closer to the player, and the adversary has more
/// than 1 energy
pub open spec fn may_step(g: Seq<Option<Entity>>, sx: int, sy: int, px: int, py: int, j: int, i: int, n: int, m: int, energy: u8) -> bool {
    &&& g[index_spec(n, m, sx, sy)] is None
    &&& !(n == px && m == py)
    &&& dist2(px, py, n, m) < dist2(px, py, j, i)
    &&& energy > 1
}

/// `after` is `g` once the adversary `thing` with ship `spent` at (j, i), cell `sector`,
/// has taken its step: to the first neighbour in search order it may step to, paying 1
/// energy, or nowhere if there is none
pub open spec fn relocated(after: Seq<Option<Entity>>, g: Seq<Option<Entity>>, sector: int, thing: Entity, spent: Ship,
    sx: int, sy: int, px: int, py: int, j: int, i: int) -> bool {
    let adj = crate::grid::adjacent_spec(j, i);
    ||| (forall|q: int| 0 <= q < adj.len() ==> !#[trigger] may_step(g, sx, sy, px, py, j, i, adj[q].0 as int, adj[q].1 as int, spent.energy))
        && after == g
    ||| exists|q: int| 0 <= q < adj.len()
        && may_step(g, sx, sy, px, py, j, i, adj[q].0 as int, adj[q].1 as int, spent.energy)
        && (forall|r: int| 0 <= r < q ==> !#[trigger] may_step(g, sx, sy, px, py, j, i, adj[r].0 as int, adj[r].1 as int, spent.energy))
        && after == g.update(sector, None).update(index_spec(adj[q].0 as int, adj[q].1 as int, sx, sy),
            Some(thing.with_ship(Ship { energy: (spent.energy - 1) as u8, ..spent })))
}

/// The ship of the adversary in sector (a, b) of system (sx, sy), if one is there
pub open spec fn adversary_at(g: Seq<Option<Entity>>, sx: int, sy: int, a: int, b: int) -> Option<Ship> {
    match g[index_spec(a, b, sx, sy)] {
        Some(e) => e.ship_spec(),
        None => None,
    }
}

/// In a pass of the given hostility, the adversary in sector (a, b) of the player's system
/// (player at `p`) has the player within its range
pub open spec fn fires_at(g: Seq<Option<Entity>>, p: (usize, usize, usize, usize), hostile: bool, a: int, b: int) -> bool {
    &&& hostile
    &&& adversary_at(g, p.2 as int, p.3 as int, a, b) is Some
    &&& reaches(adversary_at(g, p.2 as int, p.3 as int, a, b).unwrap().range, dist2(p.0 as int, p.1 as int, a, b))
}

/// The sectors whose adversaries attack in such a pass
pub open spec fn attackers_spec(g: Seq<Option<Entity>>, p: (usize, usize, usize, usize), hostile: bool) -> Set<(int, int)> {
    Set::new(|c: (int, int)| 0 <= c.0 < 10 && 0 <= c.1 < 10 && fires_at(g, p, hostile, c.0, c.1))
}

/// No adversary is in system (sx, sy)
pub open spec fn adversary_free(g: Seq<Option<Entity>>, sx: int, sy: int) -> bool {
    forall|a: int, b: int| 0 <= a < 10 && 0 <= b < 10 ==> #[trigger] adversary_at(g, sx, sy, a, b) is None
}

/// Sector (a, b) comes at or after sector (j, i) in row-major order
pub open spec fn not_before(a: int, b: int, j: int, i: int) -> bool {
    b > i || (b == i && a >= j)
}

/// The log entry of a find of `gain` energy at body `thing` in sector (x, y)
pub open spec fn investigate_entry(thing: Entity, x: usize, y: usize, gain: u8) -> Seq<u8> {
    "\nInvestigated nearby ".spec_bytes() + thing.display_view() + ".\nAt SECTOR (".spec_bytes()
        + crate::display::decimal(x as nat) + ", ".spec_bytes() + crate::display::decimal(y as nat)
        + ").\nDiscovered ".spec_bytes() + crate::display::decimal(gain as nat) + " energy crystals!\n".spec_bytes()
}

/// The usage message of SHIELDS
pub open spec fn shields_usage() -> Seq<u8> {
    "SHIELDS command requires one positive argument!

Cannot raise shields beyond 255 energy.".spec_bytes()
}

/// The usage message of MOVE
pub open spec fn move_usage() -> Seq<u8> {
    "MOVE requires at least three positive
numeric arguments:

    MOVE s x y [X Y]

The speed s must be greater than zero.

Run HELP for more commands.".spec_bytes()
}

/// The usage message of a weapon command called `name`
pub open spec fn weapon_usage(name: Seq<u8>) -> Seq<u8> {
    name + " requires three positive
numeric arguments:

".spec_bytes() + name + " n x y

where n must be greater than zero.

Run HELP for more commands.".spec_bytes()
}

/// The message for a word that names no command
pub open spec fn unknown_message(word: Seq<u8>) -> Seq<u8> {
    "Unrecognised command:\n\n    '".spec_bytes() + word
        + "'\n\nTry the HELP command for a list of possible\ncommands!".spec_bytes()
}

/// The message when the weapon's target sector (x, y) holds nothing hostile
pub open spec fn no_target_message(x: usize, y: usize) -> Seq<u8> {
    "Nothing to target at (".spec_bytes() + crate::display::decimal(x as nat) + ", ".spec_bytes()
        + crate::display::decimal(y as nat) + ")!".spec_bytes()
}

/// The message when the weapon's target sector (x, y) lies beyond the player's range
pub open spec fn out_of_range_message(x: usize, y: usize) -> Seq<u8> {
    "(".spec_bytes() + crate::display::decimal(x as nat) + ", ".spec_bytes()
        + crate::display::decimal(y as nat) + ") out of range!".spec_bytes()
}

/// The message of a torpedo hit with `count` torpedoes
pub open spec fn torpedo_message(e: Entity, count: u8, damage: u8, destroyed: bool) -> Seq<u8> {
    "\nHit ".spec_bytes() + e.display_view() + " with ".spec_bytes() + crate::display::decimal(count as nat)
        + " torpedo(es),\ninflicting ".spec_bytes() + crate::display::decimal(damage as nat) + " damage!\n".spec_bytes()
        + if destroyed { "Their ship has been destroyed.\n".spec_bytes() } else { Seq::<u8>::empty() }
}

/// The kind of an entity, 0 to 7
pub open spec fn kind(e: Entity) -> int {
    match e {
        Entity::BlackHole => 0,
        Entity::Star => 1,
        Entity::Planet => 2,
        Entity::Base => 3,
        Entity::Klargons(_) => 4,
        Entity::Remulins(_) => 5,
        Entity::Faringa(_) => 6,
        Entity::Berg(_) => 7,
    }
}

/// 1 if the cell holds an entity of kind `k`, or any adversary when `k` is 8
pub open spec fn of_kind(c: Option<Entity>, k: int) -> nat {
    if c matches Some(e) && (kind(e) == k || (k == 8 && e.is_adversary())) { 1 } else { 0 }
}

/// Entities of kind `k` in the first `a` sectors of row `b` of system (sx, sy)
pub open spec fn row_kind_count(g: Seq<Option<Entity>>, sx: int, sy: int, k: int, b: int, a: int) -> nat
    decreases a,
{
    if a <= 0 { 0 } else { row_kind_count(g, sx, sy, k, b, a - 1) + of_kind(g[index_spec(a - 1, b, sx, sy)], k) }
}

/// Entities of kind `k` in the first `b` rows of system (sx, sy)
pub open spec fn kind_count(g: Seq<Option<Entity>>, sx: int, sy: int, k: int, b: int) -> nat
    decreases b,
{
    if b <= 0 { 0 } else { kind_count(g, sx, sy, k, b - 1) + row_kind_count(g, sx, sy, k, b - 1, 10) }
}

pub proof fn lemma_row_kind_update(g1: Seq<Option<Entity>>, g2: Seq<Option<Entity>>, sx: int, sy: int, k: int, b: int, a: int, a0: int, b0: int)
    requires
        0 <= a0 < 10, 0 <= b0 < 10, 0 <= b < 10, a <= 10, 0 <= sx < 10, 0 <= sy < 10,
        g1.len() == CELLS, g2.len() == CELLS,
        forall|c: int| 0 <= c < CELLS && c != index_spec(a0, b0, sx, sy) ==> g1[c] == g2[c],
    ensures
        row_kind_count(g2, sx, sy, k, b, a) + (if b == b0 && a0 < a { of_kind(g1[index_spec(a0, b0, sx, sy)], k) } else { 0 })
            == row_kind_count(g1, sx, sy, k, b, a) + (if b == b0 && a0 < a { of_kind(g2[index_spec(a0, b0, sx, sy)], k) } else { 0 }),
    decreases a,
{
    if a > 0 {
        lemma_row_kind_update(g1, g2, sx, sy, k, b, a - 1, a0, b0);
        if a - 1 >= 0 && !(a - 1 == a0 && b == b0) {
            assert(index_spec(a - 1, b, sx, sy) != index_spec(a0, b0, sx, sy));
            assert(0 <= index_spec(a - 1, b, sx, sy) < CELLS);
        }
    }
}

/// Changing one cell of a system changes its count of a kind only by that cell.
pub proof fn lemma_kind_update(g1: Seq<Option<Entity>>, g2: Seq<Option<Entity>>, sx: int, sy: int, k: int, b: int, a0: int, b0: int)
    requires
        0 <= a0 < 10, 0 <= b0 < 10, b <= 10, 0 <= sx < 10, 0 <= sy < 10,
        g1.len() == CELLS, g2.len() == CELLS,
        forall|c: int| 0 <= c < CELLS && c != index_spec(a0, b0, sx, sy) ==> g1[c] == g2[c],
    ensures
        kind_count(g2, sx, sy, k, b) + (if b0 < b { of_kind(g1[index_spec(a0, b0, sx, sy)], k) } else { 0 })
            == kind_count(g1, sx, sy, k, b) + (if b0 < b { of_kind(g2[index_spec(a0, b0, sx, sy)], k) } else { 0 }),
    decreases b,
{
    if b > 0 && b - 1 < 10 {
        lemma_kind_update(g1, g2, sx, sy, k, b - 1, a0, b0);
        lemma_row_kind_update(g1, g2, sx, sy, k, b - 1, 10, a0, b0);
    }
}

pub open spec fn kinds_kept(after: Seq<Option<Entity>>, before: Seq<Option<Entity>>, sx: int, sy: int) -> bool {
    forall|k: int| #[trigger] kind_count(after, sx, sy, k, 10) == kind_count(before, sx, sy, k, 10)
}

/// System (j, i) is the player's system (xx, yy) or adjacent to it
pub open spec fn near_system(j: int, i: int, xx: int, yy: int) -> bool {
    j + 1 >= xx && j <= xx + 1 && i + 1 >= yy && i <= yy + 1
}

/// A system's entry on the survey chart: adversary, base and star totals for systems
/// near the player, stars otherwise
pub open spec fn survey_cell(g: Seq<Option<Entity>>, xx: int, yy: int, j: int, i: int) -> Seq<u8> {
    seq![32u8] + if near_system(j, i, xx, yy) {
        crate::display::decimal(kind_count(g, j, i, 8, 10)) + crate::display::decimal(kind_count(g, j, i, 3, 10))
            + crate::display::decimal(kind_count(g, j, i, 1, 10))
    } else {
        "***".spec_bytes()
    }
}

/// The first `j` entries of row `i` of the survey chart
pub open spec fn survey_row(g: Seq<Option<Entity>>, xx: int, yy: int, i: int, j: int) -> Seq<u8>
    decreases j,
{
    if j <= 0 { seq![] } else { survey_row(g, xx, yy, i, j - 1) + survey_cell(g, xx, yy, j - 1, i) }
}

/// The first `i` rows of the survey chart
pub open spec fn survey_rows(g: Seq<Option<Entity>>, xx: int, yy: int, i: int) -> Seq<u8>
    decreases i,
{
    if i <= 0 {
        seq![]
    } else {
        survey_rows(g, xx, yy, i - 1) + "\n  ".spec_bytes() + crate::display::decimal((i - 1) as nat)
            + survey_row(g, xx, yy, i - 1, 10)
    }
}

/// The survey chart of the galaxy seen from system (xx, yy)
pub open spec fn survey_screen(g: Seq<Option<Entity>>, xx: int, yy: int) -> Seq<u8> {
    "\n\n     0   1   2   3   4   5   6   7   8   9".spec_bytes() + survey_rows(g, xx, yy, 10)
        + "\n\n\n    XYZ (SYSTEM TOTALS)\n    |||\n    ||+-> STARS\n    |+--> BASES\n    +---> ENEMIES\n".spec_bytes()
}

/// Display code of the player's ship: a full or a drained ship
pub open spec fn player_code_spec(energy: u8) -> u8 {
    if energy > 127 { 0x01 } else { 0x02 }
}

/// Sector (j, i) on the star chart of system (sx, sy) with the player at (px, py)
pub open spec fn chart_cell(g: Seq<Option<Entity>>, sx: int, sy: int, px: int, py: int, pc: u8, j: int, i: int) -> Seq<u8> {
    seq![32u8, if j == px && i == py {
        pc
    } else {
        match g[index_spec(j, i, sx, sy)] {
            None => 0xFAu8,
            Some(e) => e.code_spec(),
        }
    }]
}

/// The legend beside row `i` of the star chart
pub open spec fn legend(i: int) -> Seq<u8> {
    if i == 0 {
        "        BLACK HOLE: ".spec_bytes() + seq![0x07u8]
    } else if i == 1 {
        "        STAR:       ".spec_bytes() + seq![0x08u8]
    } else if i == 2 {
        "        PLANET:     ".spec_bytes() + seq![0x09u8]
    } else if i == 3 {
        "        BASE:       ".spec_bytes() + seq![0x0Bu8]
    } else if i == 4 {
        "        KLARGONS:   ".spec_bytes() + seq![0x03u8]
    } else if i == 5 {
        "        REMULINS:   ".spec_bytes() + seq![0x04u8]
    } else if i == 6 {
        "        FARINGA:    ".spec_bytes() + seq![0x05u8]
    } else if i == 7 {
        "        BERG:       ".spec_bytes() + seq![0x06u8]
    } else {
        seq![]
    }
}

/// The first `j` sectors of row `i` of the star chart
pub open spec fn chart_row(g: Seq<Option<Entity>>, sx: int, sy: int, px: int, py: int, pc: u8, i: int, j: int) -> Seq<u8>
    decreases j,
{
    if j <= 0 { seq![] } else { chart_row(g, sx, sy, px, py, pc, i, j - 1) + chart_cell(g, sx, sy, px, py, pc, j - 1, i) }
}

/// The first `i` rows of the star chart, with their legends
pub open spec fn chart_rows(g: Seq<Option<Entity>>, sx: int, sy: int, px: int, py: int, pc: u8, i: int) -> Seq<u8>
    decreases i,
{
    if i <= 0 {
        seq![]
    } else {
        chart_rows(g, sx, sy, px, py, pc, i - 1) + "\n  ".spec_bytes() + crate::display::decimal((i - 1) as nat)
            + chart_row(g, sx, sy, px, py, pc, i - 1, 10) + legend(i - 1)
    }
}

pub open spec fn pos_ok(p: (usize, usize, usize, usize)) -> bool {
    coord_ok(p.0 as int) && coord_ok(p.1 as int) && coord_ok(p.2 as int) && coord_ok(p.3 as int)
}

pub open spec fn cell_of(p: (usize, usize, usize, usize)) -> int {
    index_spec(p.0 as int, p.1 as int, p.2 as int, p.3 as int)
}

impl GameState {
    pub closed spec fn wf(&self) -> bool {
        &&& self.galaxy@.len() == CELLS
        &&& self.logbook@.len() >= 1
        &&& self.page + 1 == self.logbook@.len()
        &&& pos_ok(self.position)
    }

    /// The pages of the logbook
    pub closed spec fn pages(&self) -> Seq<Seq<u8>> {
        self.logbook@.map_values(|p: Vec<u8>| p@)
    }

    pub closed spec fn galaxy_view(&self) -> Seq<Option<Entity>> {
        self.galaxy@
    }

    pub closed spec fn player_spec(&self) -> Ship {
        self.player
    }

    pub closed spec fn position_spec(&self) -> (usize, usize, usize, usize) {
        self.position
    }

    pub closed spec fn mission_spec(&self) -> usize {
        self.mission
    }

    pub closed spec fn date_spec(&self) -> usize {
        self.date
    }

    pub closed spec fn last_entry_spec(&self) -> Seq<u8> {
        self.last_entry@
    }

    /// What well-formedness guarantees to callers
    pub proof fn lemma_wf(&self)
        requires
            self.wf(),
        ensures
            self.galaxy_view().len() == CELLS,
            pos_ok(self.position_spec()),
            self.pages().len() >= 1,
    {
    }

    /// Number of newlines on a page
    fn newline_count(page: &Vec<u8>) -> (r: usize)
        ensures
            r == newlines(page@),
    {
        let mut count: usize = 0;
        let mut i: usize = 0;
        while i < page.len()
            invariant
                i <= page@.len(),
                count == newlines(page@.subrange(0, i as int)),
                count <= i,
            decreases page@.len() - i,
        {
            assert(page@.subrange(0, i + 1).drop_last() =~= page@.subrange(0, i as int));
            if page[i] == 10u8 {
                count = count + 1;
            }
            i = i + 1;
        }
        assert(page@.subrange(0, i as int) =~= page@);
        count
    }

    /// Writes an entry to the log
    pub fn record(&mut self, entry: &[u8])
        requires
            old(self).wf(),
        ensures
            final(self).wf(),
            final(self).pages() == record_spec(old(self).pages(), entry@),
            extends(final(self).pages(), old(self).pages()),
            final(self).last_entry_spec() == entry@,
            final(self).galaxy_view() == old(self).galaxy_view(),
            final(self).player_spec() == old(self).player_spec(),
            final(self).position_spec() == old(self).position_spec(),
            final(self).mission_spec() == old(self).mission_spec(),
            final(self).date_spec() == old(self).date_spec(),
    {
        self.last_entry = slice_to_vec(entry);
        let mut i: usize = 0;
        while i < entry.len()
            invariant
                self.wf(),
                i <= entry@.len(),
                self.pages() == record_spec(old(self).pages(), entry@.subrange(0, i as int)),
                self.last_entry@ == entry@,
                self.galaxy@ == old(self).galaxy@,
                self.player == old(self).player,
                self.position == old(self).position,
                self.mission == old(self).mission,
                self.date == old(self).date,
            decreases entry@.len() - i,
        {
            let ghost before = self.pages();
            assert(entry@.subrange(0, i + 1).drop_last() =~= entry@.subrange(0, i as int));
            let c = entry[i];
            let length = Self::newline_count(&self.logbook[self.page]);
            assert(self.logbook@[self.page as int]@ == before.last());
            if length >= PAGE_LINES {
                self.logbook.push(Vec::new());
                self.page = self.logbook.len() - 1;
            }
            let mut latest = self.logbook[self.page].clone();
            assert(latest@ == self.logbook@[self.page as int]@);
            latest.push(c);
            self.logbook.set(self.page, latest);
            assert(self.pages() =~= push_byte(before, c));
            i = i + 1;
        }
        assert(entry@.subrange(0, i as int) =~= entry@);
        proof {
            lemma_record_extends(old(self).pages(), entry@);
        }
    }

    /// Calculates a hit on a ship: returns the damage dealt and the ship after it
    pub fn fire(beam: u8, ship: Ship) -> (r: (u8, Ship))
        ensures
            r.0 == damage_spec(beam, ship),
            r.1 == fired_spec(beam, ship),
    {
        let total: u16 = ship.energy as u16 + ship.shields as u16;
        let damage: u8 = if total > beam as u16 { beam } else { total as u8 };
        if ship.shields > damage {
            (damage, Ship { shields: ship.shields - damage, ..ship })
        } else {
            let rem = damage - ship.shields;
            (damage, Ship { shields: 0, energy: ship.energy - rem, ..ship })
        }
    }

    /// Calculates a hit on an enemy ship and updates the galaxy: the enemy keeps its cell
    /// while it has energy left, and is destroyed otherwise
    fn hit(&mut self, sector: usize, beam: u8, enemy: Entity, ship: Ship) -> (r: (u8, bool))
        requires
            old(self).wf(),
            sector < CELLS,
            enemy.is_adversary(),
        ensures
            final(self).wf(),
            r.0 == damage_spec(beam, ship),
            r.1 == (fired_spec(beam, ship).energy == 0),
            final(self).galaxy_view() == old(self).galaxy_view().update(
                sector as int,
                if r.1 { None } else { Some(enemy.with_ship(fired_spec(beam, ship))) },
            ),
            final(self).mission_spec() == if r.1 { inc(old(self).mission_spec()) } else { old(self).mission_spec() },
            final(self).player_spec() == old(self).player_spec(),
            final(self).position_spec() == old(self).position_spec(),
            final(self).date_spec() == old(self).date_spec(),
            r.1 ==> final(self).pages() == record_spec(old(self).pages(), destroyed_entry(enemy))
                && final(self).last_entry_spec() == destroyed_entry(enemy),
            !r.1 ==> final(self).pages() == old(self).pages() && final(self).last_entry_spec() == old(self).last_entry_spec(),
    {
        let (damage, ship) = Self::fire(beam, ship);
        if ship.energy > 0 {
            self.galaxy.set(sector, enemy.update(ship));
            (damage, false)
        } else {
            self.galaxy.set(sector, None);
            let mut msg: Vec<u8> = Vec::new();
            push_str(&mut msg, "\nEnemy ");
            let name = enemy.display_bytes();
            crate::display::push_bytes(&mut msg, name.as_slice());
            push_str(&mut msg, " destroyed!\n");
            self.record(msg.as_slice());
            self.mission = self.mission.saturating_add(1);
            (damage, true)
        }
    }

    /// Fires the player's lasers: the player pays the whole beam in energy, whatever
    /// damage it deals
    fn laser(&mut self, sector: usize, beam: u8, enemy: Entity, ship: Ship) -> (r: Vec<u8>)
        requires
            old(self).wf(),
            sector < CELLS,
            enemy.is_adversary(),
        ensures
            final(self).wf(),
            final(self).galaxy_view() == old(self).galaxy_view().update(
                sector as int,
                if fired_spec(beam, ship).energy == 0 { None } else { Some(enemy.with_ship(fired_spec(beam, ship))) },
            ),
            final(self).mission_spec() == if fired_spec(beam, ship).energy == 0 {
                inc(old(self).mission_spec())
            } else {
                old(self).mission_spec()
            },
            final(self).player_spec() == (Ship {
                energy: if old(self).player_spec().energy > beam { (old(self).player_spec().energy - beam) as u8 } else { 0 },
                ..old(self).player_spec()
            }),
            final(self).position_spec() == old(self).position_spec(),
            final(self).date_spec() == old(self).date_spec(),
            r@ == laser_message(enemy, damage_spec(beam, ship) as u8, fired_spec(beam, ship).energy == 0),
    {
        let (damage, destroyed) = self.hit(sector, beam, enemy, ship);
        self.player.energy = self.player.energy.saturating_sub(beam);
        let mut msg: Vec<u8> = Vec::new();
        push_str(&mut msg, "\nHit ");
        let name = enemy.display_bytes();
        crate::display::push_bytes(&mut msg, name.as_slice());
        push_str(&mut msg, " with lasers inflicting ");
        push_num(&mut msg, damage as usize);
        push_str(&mut msg, " damage!\n");
        if destroyed {
            push_str(&mut msg, "Their ship has been destroyed.\n");
        }
        assert(msg@ =~= laser_message(enemy, damage, destroyed));
        msg
    }

    /// Fires the player's torpedoes: no more than the player carries
    fn torpedo(&mut self, sector: usize, number: u8, enemy: Entity, ship: Ship) -> (r: Vec<u8>)
        requires
            old(self).wf(),
            sector < CELLS,
            enemy.is_adversary(),
        ensures
            final(self).wf(),
            ({
                let count = if number > old(self).player_spec().torpedoes { old(self).player_spec().torpedoes } else { number };
                let after = fired_spec(torpedo_beam_spec(count), ship);
                &&& final(self).galaxy_view() == old(self).galaxy_view().update(
                    sector as int,
                    if after.energy == 0 { None } else { Some(enemy.with_ship(after)) },
                )
                &&& final(self).mission_spec() == if after.energy == 0 {
                    inc(old(self).mission_spec())
                } else {
                    old(self).mission_spec()
                }
                &&& final(self).player_spec() == (Ship {
                    torpedoes: (old(self).player_spec().torpedoes - count) as u8,
                    ..old(self).player_spec()
                })
            }),
            final(self).position_spec() == old(self).position_spec(),
            final(self).date_spec() == old(self).date_spec(),
            ({
                let count = if number > old(self).player_spec().torpedoes { old(self).player_spec().torpedoes } else { number };
                let b = torpedo_beam_spec(count);
                r@ == torpedo_message(enemy, count, damage_spec(b, ship) as u8, fired_spec(b, ship).energy == 0)
            }),
    {
        let number = if number > self.player.torpedoes { self.player.torpedoes } else { number };
        let beam = torpedo_beam(number);
        let (damage, destroyed) = self.hit(sector, beam, enemy, ship);
        self.player.torpedoes = self.player.torpedoes - number;
        let mut msg: Vec<u8> = Vec::new();
        push_str(&mut msg, "\nHit ");
        let name = enemy.display_bytes();
        crate::display::push_bytes(&mut msg, name.as_slice());
        push_str(&mut msg, " with ");
        push_num(&mut msg, number as usize);
        push_str(&mut msg, " torpedo(es),\ninflicting ");
        push_num(&mut msg, damage as usize);
        push_str(&mut msg, " damage!\n");
        if destroyed {
            push_str(&mut msg, "Their ship has been destroyed.\n");
        }
        assert(msg@ =~= torpedo_message(enemy, number, damage, destroyed));
        msg
    }

    /// One adversary's turn in an evolution pass: it attacks the player if `engage` says
    /// so, then moves one cell closer to the player if an adjacent cell is free
    fn adversary_turn(&mut self, sector: usize, j: usize, i: usize, thing: Entity, ship: Ship, hostile: bool, done: &mut Vec<bool>)
        requires
            old(self).wf(),
            j < SECTORS, i < SECTORS,
            sector == index_spec(j as int, i as int, old(self).position.2 as int, old(self).position.3 as int),
            thing.is_adversary(),
            thing.ship_spec() == Some(ship),
            old(self).galaxy@[sector as int] == Some(thing),
            old(done)@.len() == SYSTEM_CELLS,
        ensures
            hostile && reaches(ship.range, dist2(old(self).position.0 as int, old(self).position.1 as int, j as int, i as int))
                ==> exists|beam: u8, spent: Ship| paid_for(ship, beam, spent)
                    && final(self).player == fired_spec(beam, old(self).player),
            !(hostile && reaches(ship.range, dist2(old(self).position.0 as int, old(self).position.1 as int, j as int, i as int)))
                ==> final(self).player == old(self).player,
            kept(final(self).galaxy@, old(self).galaxy@, old(self).position.2 as int, old(self).position.3 as int,
                cell_of(old(self).position)),
            final(self).wf(),
            final(done)@.len() == SYSTEM_CELLS,
            final(self).position == old(self).position,
            final(self).mission == old(self).mission,
            final(self).date == old(self).date,
            worn(final(self).player, old(self).player),
            !hostile ==> final(self).player == old(self).player,
            forall|q: int| 0 <= q < SYSTEM_CELLS && old(done)@[q] ==> final(done)@[q],
            extends(final(self).pages(), old(self).pages()),
            kinds_kept(final(self).galaxy@, old(self).galaxy@, old(self).position.2 as int, old(self).position.3 as int),
            forall|a: int, b: int| 0 <= a < 10 && 0 <= b < 10 && !(a == j && b == i)
                && #[trigger] final(self).galaxy@[index_spec(a, b, old(self).position.2 as int, old(self).position.3 as int)]
                != old(self).galaxy@[index_spec(a, b, old(self).position.2 as int, old(self).position.3 as int)]
                ==> final(done)@[a + 10 * b],
            forall|a: int, b: int| 0 <= a < 10 && 0 <= b < 10 && #[trigger] final(done)@[a + 10 * b] && !old(done)@[a + 10 * b]
                ==> old(self).galaxy@[index_spec(a, b, old(self).position.2 as int, old(self).position.3 as int)] is None,
            exists|spent: Ship| #![trigger thing.with_ship(spent)] {
                let p = old(self).position;
                &&& relocated(final(self).galaxy@, old(self).galaxy@.update(sector as int, Some(thing.with_ship(spent))),
                    sector as int, thing, spent, p.2 as int, p.3 as int, p.0 as int, p.1 as int, j as int, i as int)
                &&& if hostile && reaches(ship.range, dist2(p.0 as int, p.1 as int, j as int, i as int)) {
                    exists|beam: u8| paid_for(ship, beam, spent) && final(self).player == fired_spec(beam, old(self).player)
                } else {
                    spent == ship
                }
            },
    {
        let (x, y, xx, yy) = self.position;
        let dr2 = distance_squared(x, y, j, i);
        let ship = match engage(&mut self.rng, hostile, dr2, ship) {
            Some((beam, spent)) => {
                let (damage, player) = Self::fire(beam, self.player);
                self.player = player;
                let mut msg: Vec<u8> = Vec::new();
                push_str(&mut msg, "\nEnemy ");
                let mut name = thing.display_bytes();
                msg.append(&mut name);
                push_str(&mut msg, " have attacked!\nWe've taken ");
                push_num(&mut msg, damage as usize);
                push_str(&mut msg, " damage.\nRemaining ENERGY:  ");
                push_num(&mut msg, self.player.energy as usize);
                push_str(&mut msg, "\n          SHIELDS: ");
                push_num(&mut msg, self.player.shields as usize);
                push_str(&mut msg, "\n");
                self.record(msg.as_slice());
                spent
            },
            None => ship,
        };
        proof {
            if self.pages() == old(self).pages() {
                lemma_record_extends(old(self).pages(), seq![]);
            }
        }
        self.galaxy.set(sector, thing.update(ship));
        let ghost p0 = self.player;
        let ghost g1 = self.galaxy@;
        assert(g1 == old(self).galaxy@.update(sector as int, Some(thing.with_ship(ship))));
        let mut moved = false;
        let ghost mut qm: int = 0;
        assert(kept(self.galaxy@, old(self).galaxy@, xx as int, yy as int, cell_of(self.position)));
        let adj = adjacent(j, i);
        let mut k: usize = 0;
        while k < adj.len() && !moved
            invariant
                adj@ == crate::grid::adjacent_spec(j as int, i as int),
                k <= adj@.len(),
                !moved ==> self.galaxy@ == g1,
                done@.len() == SYSTEM_CELLS,
                forall|q: int| 0 <= q < SYSTEM_CELLS && old(done)@[q] ==> done@[q],
                forall|a: int, b: int| 0 <= a < 10 && 0 <= b < 10 && !(a == j && b == i)
                    && #[trigger] self.galaxy@[index_spec(a, b, xx as int, yy as int)]
                    != old(self).galaxy@[index_spec(a, b, xx as int, yy as int)]
                    ==> done@[a + 10 * b],
                forall|a: int, b: int| 0 <= a < 10 && 0 <= b < 10 && #[trigger] done@[a + 10 * b] && !old(done)@[a + 10 * b]
                    ==> old(self).galaxy@[index_spec(a, b, xx as int, yy as int)] is None,
                !moved ==> forall|r: int| 0 <= r < k ==> !#[trigger] may_step(g1, xx as int, yy as int, x as int, y as int,
                    j as int, i as int, adj@[r].0 as int, adj@[r].1 as int, ship.energy),
                moved ==> 0 <= qm < adj@.len()
                    && may_step(g1, xx as int, yy as int, x as int, y as int, j as int, i as int, adj@[qm].0 as int, adj@[qm].1 as int, ship.energy)
                    && (forall|r: int| 0 <= r < qm ==> !#[trigger] may_step(g1, xx as int, yy as int, x as int, y as int,
                        j as int, i as int, adj@[r].0 as int, adj@[r].1 as int, ship.energy))
                    && self.galaxy@ == g1.update(sector as int, None).update(index_spec(adj@[qm].0 as int, adj@[qm].1 as int, xx as int, yy as int),
                        Some(thing.with_ship(Ship { energy: (ship.energy - 1) as u8, ..ship }))),
                g1[sector as int] == Some(thing.with_ship(ship)),
                extends(self.pages(), old(self).pages()),
                dr2 == dist2(x as int, y as int, j as int, i as int),
                self.wf(),
                done@.len() == SYSTEM_CELLS,
                self.position == old(self).position,
                self.mission == old(self).mission,
                self.date == old(self).date,
                worn(self.player, old(self).player),
                !hostile ==> self.player == old(self).player,
                self.position == (x, y, xx, yy),
                sector < CELLS,
                sector == index_spec(j as int, i as int, xx as int, yy as int),
                j < SECTORS, i < SECTORS, xx < SYSTEMS, yy < SYSTEMS,
                self.player == p0,
                thing.is_adversary(),
                kept(self.galaxy@, old(self).galaxy@, xx as int, yy as int, cell_of(self.position)),
                forall|q: int| 0 <= q < adj@.len() ==> adj@[q].0 < SECTORS && adj@[q].1 < SECTORS,
            decreases adj@.len() - k,
        {
            let (n, m) = adj[k];
            let ghost g0 = self.galaxy@;
            let new = index(n, m, xx, yy);
            let ds2 = distance_squared(x, y, n, m);
            if self.galaxy[new].is_none() && (n != x || m != y) && ds2 < dr2 && ship.energy > 1 {
                assert(may_step(g1, xx as int, yy as int, x as int, y as int, j as int, i as int, adj@[k as int].0 as int,
                    adj@[k as int].1 as int, ship.energy));
                {
                    let stepped_ship = Ship { energy: ship.energy - 1, ..ship };
                    self.galaxy.set(sector, None);
                    self.galaxy.set(new, thing.update(stepped_ship));
                    assert(new != cell_of(self.position));
                    assert(thing.with_ship(ship).is_adversary());
                    assert(g0[new as int] is None);
                    assert(in_system(new as int, xx as int, yy as int) && in_system(sector as int, xx as int, yy as int)) by (nonlinear_arith)
                        requires
                            new == n + 10 * (m + 10 * (xx + 10 * yy)),
                            sector == j + 10 * (i + 10 * (xx + 10 * yy)),
                            n < 10, m < 10, j < 10, i < 10;
                    assert(kept(self.galaxy@, g0, xx as int, yy as int, cell_of(self.position)));
                    proof {
                        lemma_kept_trans(old(self).galaxy@, g0, self.galaxy@, xx as int, yy as int, cell_of(self.position));
                    }
                    assert(n + SECTORS * m < SYSTEM_CELLS) by (nonlinear_arith)
                        requires n < 10, m < 10;
                    let ghost d0 = done@;
                    done.set(n + SECTORS * m, true);
                    proof {
                        assert forall|a: int, b: int| 0 <= a < 10 && 0 <= b < 10 && !(a == j && b == i)
                            && #[trigger] self.galaxy@[index_spec(a, b, xx as int, yy as int)]
                            != old(self).galaxy@[index_spec(a, b, xx as int, yy as int)]
                            implies done@[a + 10 * b] by {
                            if index_spec(a, b, xx as int, yy as int) == new as int {
                                assert(a == n && b == m);
                            } else {
                                assert(index_spec(a, b, xx as int, yy as int) != sector as int);
                            }
                        }
                        assert forall|a: int, b: int| 0 <= a < 10 && 0 <= b < 10 && #[trigger] done@[a + 10 * b]
                            && !old(done)@[a + 10 * b]
                            implies old(self).galaxy@[index_spec(a, b, xx as int, yy as int)] is None by {
                            if a + 10 * b == n + 10 * m {
                                assert(a == n && b == m);
                                assert(index_spec(a, b, xx as int, yy as int) != sector as int);
                            }
                        }
                    }
                    let mut msg: Vec<u8> = Vec::new();
                    push_str(&mut msg, "\nEnemy ");
                    let mut name = thing.display_bytes();
                    msg.append(&mut name);
                    push_str(&mut msg, " moved to SECTOR: (");
                    push_num(&mut msg, n);
                    push_str(&mut msg, ",");
                    push_num(&mut msg, m);
                    push_str(&mut msg, ").\n");
                    let ghost pg = self.pages();
                    self.record(msg.as_slice());
                    proof {
                        lemma_extends_trans(old(self).pages(), pg, self.pages());
                    }
                    moved = true;
                    proof {
                        qm = k as int;
                    }
                }
            } else {
                assert(!may_step(g1, xx as int, yy as int, x as int, y as int, j as int, i as int, adj@[k as int].0 as int,
                    adj@[k as int].1 as int, ship.energy));
            }
            k = k + 1;
        }
        proof {
            assert forall|k: int| #[trigger] kind_count(self.galaxy@, xx as int, yy as int, k, 10)
                == kind_count(old(self).galaxy@, xx as int, yy as int, k, 10) by {
                assert(kind(thing.with_ship(ship)) == kind(thing));
                lemma_kind_update(old(self).galaxy@, g1, xx as int, yy as int, k, 10, j as int, i as int);
                if moved {
                    let g2 = g1.update(sector as int, None);
                    lemma_kind_update(g1, g2, xx as int, yy as int, k, 10, j as int, i as int);
                    let c = adj@[qm];
                    assert(kind(thing.with_ship(Ship { energy: (ship.energy - 1) as u8, ..ship })) == kind(thing));
                    assert(index_spec(c.0 as int, c.1 as int, xx as int, yy as int) != sector as int);
                    lemma_kind_update(g2, self.galaxy@, xx as int, yy as int, k, 10, c.0 as int, c.1 as int);
                }
            }
        }
    }

    /// Evolves the entities in the player's system by one time period: each adversary
    /// acts once, attacking only in a hostile pass
    fn evolve(&mut self, hostile: bool) -> (attackers: Ghost<Set<(int, int)>>)
        requires
            old(self).wf(),
        ensures
            final(self).wf(),
            final(self).position == old(self).position,
            final(self).mission == old(self).mission,
            final(self).date == inc(old(self).date),
            worn(final(self).player, old(self).player),
            !hostile ==> final(self).player == old(self).player,
            kept(final(self).galaxy@, old(self).galaxy@, old(self).position.2 as int, old(self).position.3 as int,
                cell_of(old(self).position)),
            attackers@ == attackers_spec(old(self).galaxy@, old(self).position, hostile),
            attackers@ =~= Set::<(int, int)>::empty() ==> final(self).player == old(self).player,
            adversary_free(old(self).galaxy@, old(self).position.2 as int, old(self).position.3 as int)
                ==> final(self).galaxy@ == old(self).galaxy@,
            kinds_kept(final(self).galaxy@, old(self).galaxy@, old(self).position.2 as int, old(self).position.3 as int),
            extends(final(self).pages(), old(self).pages()),
    {
        let mut done: Vec<bool> = vec![false; SYSTEM_CELLS];
        let (x, y, xx, yy) = self.position;
        let ghost g0 = old(self).galaxy@;
        let ghost p0 = old(self).position;
        let ghost mut fired: Set<(int, int)> = Set::empty();
        proof {
            lemma_record_extends(old(self).pages(), seq![]);
        }
        let mut i: usize = 0;
        while i < SECTORS
            invariant
                self.wf(),
                done@.len() == SYSTEM_CELLS,
                self.position == old(self).position,
                self.position == (x, y, xx, yy),
                g0 == old(self).galaxy@, p0 == old(self).position,
                i <= SECTORS,
                self.mission == old(self).mission,
                self.date == old(self).date,
                worn(self.player, old(self).player),
                !hostile ==> self.player == old(self).player,
                kept(self.galaxy@, old(self).galaxy@, xx as int, yy as int, cell_of(old(self).position)),
                forall|a: int, b: int| 0 <= a < 10 && 0 <= b < 10 && not_before(a, b, 0, i as int) && !done@[a + 10 * b]
                    ==> #[trigger] self.galaxy@[index_spec(a, b, xx as int, yy as int)] == g0[index_spec(a, b, xx as int, yy as int)],
                forall|a: int, b: int| 0 <= a < 10 && 0 <= b < 10 && not_before(a, b, 0, i as int) && #[trigger] done@[a + 10 * b]
                    ==> g0[index_spec(a, b, xx as int, yy as int)] is None,
                fired == Set::new(|c: (int, int)| 0 <= c.0 < 10 && 0 <= c.1 < 10 && !not_before(c.0, c.1, 0, i as int)
                    && fires_at(g0, p0, hostile, c.0, c.1)),
                fired =~= Set::<(int, int)>::empty() ==> self.player == old(self).player,
                adversary_free(g0, xx as int, yy as int) ==> self.galaxy@ == g0,
                kinds_kept(self.galaxy@, g0, xx as int, yy as int),
                extends(self.pages(), old(self).pages()),
            decreases SECTORS - i,
        {
            let mut j: usize = 0;
            while j < SECTORS
                invariant
                    self.wf(),
                    i < SECTORS,
                    j <= SECTORS,
                    done@.len() == SYSTEM_CELLS,
                    self.position == old(self).position,
                    self.position == (x, y, xx, yy),
                    g0 == old(self).galaxy@, p0 == old(self).position,
                    self.mission == old(self).mission,
                    self.date == old(self).date,
                    worn(self.player, old(self).player),
                    !hostile ==> self.player == old(self).player,
                    kept(self.galaxy@, old(self).galaxy@, xx as int, yy as int, cell_of(old(self).position)),
                    forall|a: int, b: int| 0 <= a < 10 && 0 <= b < 10 && not_before(a, b, j as int, i as int) && !done@[a + 10 * b]
                        ==> #[trigger] self.galaxy@[index_spec(a, b, xx as int, yy as int)] == g0[index_spec(a, b, xx as int, yy as int)],
                    forall|a: int, b: int| 0 <= a < 10 && 0 <= b < 10 && not_before(a, b, j as int, i as int) && #[trigger] done@[a + 10 * b]
                        ==> g0[index_spec(a, b, xx as int, yy as int)] is None,
                    fired == Set::new(|c: (int, int)| 0 <= c.0 < 10 && 0 <= c.1 < 10 && !not_before(c.0, c.1, j as int, i as int)
                        && fires_at(g0, p0, hostile, c.0, c.1)),
                    fired =~= Set::<(int, int)>::empty() ==> self.player == old(self).player,
                    adversary_free(g0, xx as int, yy as int) ==> self.galaxy@ == g0,
                    kinds_kept(self.galaxy@, g0, xx as int, yy as int),
                    extends(self.pages(), old(self).pages()),
                decreases SECTORS - j,
            {
                let sector = index(j, i, xx, yy);
                assert(j + SECTORS * i < SYSTEM_CELLS) by (nonlinear_arith)
                    requires j < 10, i < 10;
                let ghost fired0 = fired;
                let ghost before = self.galaxy@;
                let ghost d0 = done@;
                let ghost pl0 = self.player;
                let ghost acted = false;
                if !done[j + SECTORS * i] {
                    assert(self.galaxy@[sector as int] == g0[sector as int]);
                    if let Some(thing) = self.galaxy[sector] {
                        if let Some(ship) = thing.ship() {
                            let ghost gb = self.galaxy@;
                            let ghost pg = self.pages();
                            self.adversary_turn(sector, j, i, thing, ship, hostile, &mut done);
                            proof {
                                lemma_extends_trans(old(self).pages(), pg, self.pages());
                                assert forall|k: int| #[trigger] kind_count(self.galaxy@, xx as int, yy as int, k, 10)
                                    == kind_count(g0, xx as int, yy as int, k, 10) by {
                                    assert(kind_count(self.galaxy@, xx as int, yy as int, k, 10) == kind_count(gb, xx as int, yy as int, k, 10));
                                    assert(kind_count(gb, xx as int, yy as int, k, 10) == kind_count(g0, xx as int, yy as int, k, 10));
                                }
                                assert(adversary_at(g0, xx as int, yy as int, j as int, i as int) == Some(ship));
                                assert(fires_at(g0, p0, hostile, j as int, i as int)
                                    == (hostile && reaches(ship.range, dist2(x as int, y as int, j as int, i as int))));
                                acted = true;
                                lemma_kept_trans(old(self).galaxy@, gb, self.galaxy@, xx as int, yy as int,
                                    cell_of(old(self).position));
                                if fires_at(g0, p0, hostile, j as int, i as int) {
                                    fired = fired.insert((j as int, i as int));
                                    assert(fired.contains((j as int, i as int)));
                                    assert(!(fired =~= Set::<(int, int)>::empty()));
                                } else {
                                    assert(self.player == pl0);
                                }
                            }
                        }
                    }
                }
                proof {
                    if !acted {
                        assert(!fires_at(g0, p0, hostile, j as int, i as int)) by {
                            if d0[j + 10 * i] {
                                assert(not_before(j as int, i as int, j as int, i as int));
                            }
                        }
                    }
                    assert(fired =~= Set::new(|c: (int, int)| 0 <= c.0 < 10 && 0 <= c.1 < 10
                        && !not_before(c.0, c.1, j + 1, i as int) && fires_at(g0, p0, hostile, c.0, c.1)));
                    assert forall|a: int, b: int| 0 <= a < 10 && 0 <= b < 10 && not_before(a, b, j + 1, i as int)
                        && !done@[a + 10 * b] implies #[trigger] self.galaxy@[index_spec(a, b, xx as int, yy as int)]
                        == g0[index_spec(a, b, xx as int, yy as int)] by {
                        assert(!d0[a + 10 * b]);
                        assert(not_before(a, b, j as int, i as int));
                    }
                    assert forall|a: int, b: int| 0 <= a < 10 && 0 <= b < 10 && not_before(a, b, j + 1, i as int)
                        && #[trigger] done@[a + 10 * b] implies g0[index_spec(a, b, xx as int, yy as int)] is None by {
                        assert(not_before(a, b, j as int, i as int));
                        if !d0[a + 10 * b] {
                            assert(before[index_spec(a, b, xx as int, yy as int)] == g0[index_spec(a, b, xx as int, yy as int)]);
                        }
                    }
                }
                j = j + 1;
            }
            proof {
                assert(fired =~= Set::new(|c: (int, int)| 0 <= c.0 < 10 && 0 <= c.1 < 10
                    && !not_before(c.0, c.1, 0, i + 1) && fires_at(g0, p0, hostile, c.0, c.1)));
            }
            i = i + 1;
        }
        proof {
            assert(fired =~= attackers_spec(g0, p0, hostile));
        }
        self.date = self.date.saturating_add(1);
        Ghost(fired)
    }

    /// Some sector adjacent to the player holds a base (`base`) or an interesting body
    pub open spec fn is_nearby(&self, base: bool) -> bool {
        let p = self.position_spec();
        let adj = crate::grid::adjacent_spec(p.0 as int, p.1 as int);
        exists|q: int| 0 <= q < adj.len() && #[trigger] sought(
            self.galaxy_view()[index_spec(adj[q].0 as int, adj[q].1 as int, p.2 as int, p.3 as int)], base)
    }

    /// A SHIELDS command that is carried out: one positive amount within the player's
    /// energy, with shields not yet full
    pub open spec fn shields_ok(args: Seq<usize>, p: Ship) -> bool {
        args.len() == 1 && 0 < args[0] <= p.energy && p.shields < 255
    }

    /// The player's ship after diverting `e` energy to the shields
    pub open spec fn shielded(p: Ship, e: u8) -> Ship {
        Ship {
            energy: (p.energy - e) as u8,
            shields: if p.shields + e > 255 { 255 } else { (p.shields + e) as u8 },
            ..p
        }
    }

    /// This state and `other` are the same, logbook included (the random source aside)
    pub open spec fn unchanged(&self, other: &GameState) -> bool {
        &&& self.same_game(other)
        &&& self.pages() == other.pages()
        &&& self.last_entry_spec() == other.last_entry_spec()
    }

    /// The ship of the adversary at sector (x, y) of the player's system, if one is there
    pub open spec fn target_ship(&self, x: usize, y: usize) -> Option<Ship> {
        let p = self.position_spec();
        match self.galaxy_view()[index_spec(x as int, y as int, p.2 as int, p.3 as int)] {
            Some(e) => e.ship_spec(),
            None => None,
        }
    }

    /// What a valid LASER or TORPEDO command does: a hostile target in reach is hit with
    /// the beam (saturated at 255) or with as many torpedoes as the player has; otherwise
    /// the mission stands and the player is only worn by the adversaries' turn
    pub open spec fn weapon_post(old: &GameState, new: &GameState, args: Seq<usize>, weapon: Weapon) -> bool {
        args.len() == 3 && args[0] > 0 && args[1] < SECTORS && args[2] < SECTORS ==> {
            let beam: u8 = if args[0] > 255 { 255 } else { args[0] as u8 };
            let p = old.player_spec();
            let target = old.target_ship(args[1], args[2]);
            if target is Some && in_weapon_range(p.range, dist2(old.position_spec().0 as int,
                old.position_spec().1 as int, args[1] as int, args[2] as int)) {
                let sh = target.unwrap();
                if weapon == Weapon::Laser {
                    &&& new.mission_spec() == if fired_spec(beam, sh).energy == 0 { inc(old.mission_spec()) } else { old.mission_spec() }
                    &&& new.player_spec().energy <= if p.energy > beam { p.energy - beam } else { 0 }
                    &&& new.player_spec().torpedoes == p.torpedoes
                } else {
                    let count = if beam > p.torpedoes { p.torpedoes } else { beam };
                    &&& new.mission_spec() == if fired_spec(torpedo_beam_spec(count), sh).energy == 0 {
                        inc(old.mission_spec())
                    } else {
                        old.mission_spec()
                    }
                    &&& new.player_spec().torpedoes == p.torpedoes - count
                }
            } else {
                &&& new.mission_spec() == old.mission_spec()
                &&& worn(new.player_spec(), p)
            }
        }
    }

    /// A LASER or TORPEDO command that is carried out: a positive amount and a target
    /// sector
    pub open spec fn weapon_ok(args: Seq<usize>) -> bool {
        args.len() == 3 && args[0] > 0 && args[1] < SECTORS && args[2] < SECTORS
    }

    /// What INVESTIGATE does: near an interesting body the player gains fewer than
    /// DIFFICULTY units of energy (saturating); then the adversaries act
    pub open spec fn investigate_post(old: &GameState, new: &GameState) -> bool {
        &&& new.date_spec() == inc(old.date_spec())
        &&& new.mission_spec() == old.mission_spec()
        &&& new.position_spec() == old.position_spec()
        &&& old.is_nearby(false) ==> exists|g: u8| g < DIFFICULTY && worn(new.player_spec(), #[trigger] energized(old.player_spec(), g))
        &&& !old.is_nearby(false) ==> worn(new.player_spec(), old.player_spec())
        &&& old.calm() && old.is_nearby(false) ==> exists|g: u8| g < DIFFICULTY
            && new.player_spec() == #[trigger] energized(old.player_spec(), g)
        &&& old.calm() && !old.is_nearby(false) ==> new.player_spec() == old.player_spec()
        &&& old.is_nearby(false) ==> exists|t: Entity, x: usize, y: usize, g: u8| interesting(t) && g < DIFFICULTY
            && extends(new.pages(), record_spec(old.pages(), #[trigger] investigate_entry(t, x, y, g)))
    }

    /// What a valid MOVE does, as far as the random course of it allows
    pub open spec fn move_post(old: &GameState, new: &GameState, args: Seq<usize>) -> bool {
        let p = old.position_spec();
        let t1 = path_cost(p.0 as int, p.1 as int, args[1] as int, args[2] as int, args[0] as int, 256);
        let t2 = if args.len() == 5 { path_cost(p.2 as int, p.3 as int, args[3] as int, args[4] as int, args[0] as int, 256) } else { 0 };
        &&& new.player_spec().energy <= sat_sub(old.player_spec().energy as int, (t1 + 10 * t2) as int)
        &&& adversary_free(old.galaxy_view(), p.2 as int, p.3 as int)
            && path_clear(old.galaxy_view(), p.0 as int, p.1 as int, args[1] as int, args[2] as int, args[0] as int,
                p.2 as int, p.3 as int, 256)
            ==> new.player_spec() == (Ship { energy: sat_sub(old.player_spec().energy as int, (t1 + 10 * t2) as int) as u8, ..old.player_spec() })
        &&& path_hits_black_hole(old.galaxy_view(), p.0 as int, p.1 as int, args[1] as int, args[2] as int, args[0] as int,
                p.2 as int, p.3 as int, 256) ==> new.player_spec().energy == 0
        &&& old.date_spec() + 256 < usize::MAX && new.player_spec().energy > 0 ==> new.date_spec()
            == old.date_spec() + path_steps(p.0 as int, p.1 as int, args[1] as int, args[2] as int, args[0] as int, 256)
        &&& worn(new.player_spec(), old.player_spec())
        &&& new.mission_spec() == old.mission_spec()
        &&& old.player_spec().energy > 0 && (old.position_spec().0 != args[1] || old.position_spec().1 != args[2])
            ==> new.player_spec().energy < old.player_spec().energy
        &&& (old.position_spec().0 != args[1] || old.position_spec().1 != args[2]) && args.len() != 5 && new.player_spec().energy > 0
            ==> new.galaxy_view()[cell_of(new.position_spec())] != Some(Entity::BlackHole)
        &&& new.player_spec().energy > 0 ==> {
            &&& new.position_spec().0 == args[1]
            &&& new.position_spec().1 == args[2]
            &&& args.len() == 5 ==> new.position_spec().2 == args[3] && new.position_spec().3 == args[4]
            &&& args.len() != 5 ==> new.position_spec().2 == old.position_spec().2 && new.position_spec().3 == old.position_spec().3
        }
    }

    /// No adversary in the player's system has the player within its range
    pub open spec fn calm(&self) -> bool {
        attackers_spec(self.galaxy_view(), self.position_spec(), true) =~= Set::<(int, int)>::empty()
    }

    /// The star chart of the player's system and the ship's status, with `n` adversaries
    pub open spec fn scan_screen(st: &GameState, n: nat) -> Seq<u8> {
        let p = st.position_spec();
        let pl = st.player_spec();
        let pc = player_code_spec(pl.energy);
        "\n\n    0 1 2 3 4 5 6 7 8 9".spec_bytes() + "        PLAYER:     ".spec_bytes() + seq![pc]
            + chart_rows(st.galaxy_view(), p.2 as int, p.3 as int, p.0 as int, p.1 as int, pc, 10)
            + "\n\n\n SECTOR:    (".spec_bytes() + crate::display::decimal(p.0 as nat) + ", ".spec_bytes()
            + crate::display::decimal(p.1 as nat) + ")\n SYSTEM:    (".spec_bytes() + crate::display::decimal(p.2 as nat)
            + ", ".spec_bytes() + crate::display::decimal(p.3 as nat) + ")\n ENERGY:    ".spec_bytes()
            + crate::display::decimal(pl.energy as nat) + "\n SHIELDS:   ".spec_bytes() + crate::display::decimal(pl.shields as nat)
            + "\n TORPEDOES: ".spec_bytes() + crate::display::decimal(pl.torpedoes as nat) + "\n DATE:      ".spec_bytes()
            + crate::display::decimal(st.date_spec() as nat) + "\n ENEMIES:   ".spec_bytes() + crate::display::decimal(n)
            + "\n MISSION:   ".spec_bytes() + crate::display::decimal(st.mission_spec() as nat)
    }

    /// This state and `other` differ at most in the logbook and the random source
    pub open spec fn same_game(&self, other: &GameState) -> bool {
        &&& self.galaxy_view() == other.galaxy_view()
        &&& self.player_spec() == other.player_spec()
        &&& self.position_spec() == other.position_spec()
        &&& self.mission_spec() == other.mission_spec()
        &&& self.date_spec() == other.date_spec()
    }

    /// Shows `text` and the command line
    fn show(term: &mut Terminal, text: &str)
        requires
            old(term).wf(),
        ensures
            final(term).wf(),
            final(term).shows(text.spec_bytes()),
    {
        let mut msg: Vec<u8> = Vec::new();
        push_str(&mut msg, text);
        assert(msg@ =~= text.spec_bytes());
        term.display(msg.as_slice());
    }

    /// Prints a helpful list of commands
    fn help(&self, term: &mut Terminal)
        requires
            old(term).wf(),
        ensures
            final(term).wf(),
    {
        Self::show(term, "HELP - print this list of commands

MOVE s x y [X Y] - move towards sector
position (x, y) [optionally in system (X, Y)]
at speed s, where s is between 1 and 10

LASER e x y - fire lasers with energy e towards
position (x, y)

TORPEDO t x y - fire t torpedoes towards
position (x, y)

SHIELDS e - raise shields using energy e

SCAN - perform a short range scan of the system

SURVEY - perform a long range scan of the galaxy

INVESTIGATE - search for energy supplies

DOCK - dock your ship at a base to resupply

LOG n - print page n of the ship's log");
    }

    /// Raises the player's shields by a positive amount of energy that the player has,
    /// while the shields are not full; shields saturate at 255. Anything else is a usage
    /// error that changes nothing.
    fn shields(&mut self, args: &[usize], term: &mut Terminal)
        requires
            old(self).wf(),
            old(term).wf(),
        ensures
            final(self).wf(),
            final(term).wf(),
            Self::shields_ok(args@, old(self).player) ==> {
                &&& final(self).date == inc(old(self).date)
                &&& final(self).mission == old(self).mission
                &&& final(self).position == old(self).position
                &&& worn(final(self).player, Self::shielded(old(self).player, args@[0] as u8))
                &&& old(self).calm() ==> final(self).player == Self::shielded(old(self).player, args@[0] as u8)
            },
            !Self::shields_ok(args@, old(self).player) ==> final(self).unchanged(old(self))
                && final(term).shows(shields_usage()),
    {
        if args.len() == 1 && args[0] > 0 && args[0] <= self.player.energy as usize && self.player.shields < 255 {
            let energy: u8 = args[0] as u8;
            {
                self.player.shields = self.player.shields.saturating_add(energy);
                self.player.energy = self.player.energy - energy;
                let mut msg: Vec<u8> = Vec::new();
                push_str(&mut msg, "\nEnergy diverted to shields:\nENERGY:  ");
                push_num(&mut msg, self.player.energy as usize);
                push_str(&mut msg, "\nSHIELDS: ");
                push_num(&mut msg, self.player.shields as usize);
                push_str(&mut msg, "\n");
                term.message(msg.as_slice());
                self.record(msg.as_slice());
                term.update_console();
                self.evolve(true);
                return;
            }
        }
        Self::show(term, "SHIELDS command requires one positive argument!

Cannot raise shields beyond 255 energy.");
    }

    /// Displays a page of the log: the current one, or the given one counting from 1;
    /// any other argument shows that the page is not found
    fn log(&self, args: &[usize], term: &mut Terminal)
        requires
            self.wf(),
            old(term).wf(),
        ensures
            final(term).wf(),
            ({
                let n = self.pages().len();
                if args@.len() == 0 {
                    final(term).shows(log_screen(n as nat, n as nat, self.pages()[n - 1]))
                } else if args@.len() == 1 && 0 < args@[0] <= n {
                    final(term).shows(log_screen(args@[0] as nat, n as nat, self.pages()[args@[0] - 1]))
                } else {
                    final(term).shows("Log page not found!".spec_bytes())
                }
            }),
    {
        let n = self.logbook.len();
        let page: Option<usize> = if args.len() == 0 {
            Some(self.page)
        } else if args.len() == 1 && args[0] <= n && args[0] > 0 {
            Some(args[0] - 1)
        } else {
            None
        };
        let mut msg: Vec<u8> = Vec::new();
        match page {
            Some(p) => {
                push_str(&mut msg, "Captain's Log [");
                push_num(&mut msg, p + 1);
                push_str(&mut msg, " / ");
                push_num(&mut msg, n);
                push_str(&mut msg, "]\n\n");
                crate::display::push_bytes(&mut msg, self.logbook[p].as_slice());
                assert(msg@ =~= log_screen((p + 1) as nat, n as nat, self.pages()[p as int]));
            },
            None => {
                push_str(&mut msg, "Log page not found!");
                assert(msg@ =~= "Log page not found!".spec_bytes());
            },
        }
        term.display(msg.as_slice());
    }

    /// The first sector adjacent to the player, in search order, that holds a base
    /// (`base`) or an interesting body (otherwise)
    fn nearby(&self, base: bool) -> (r: Option<(usize, usize, Entity)>)
        requires
            self.wf(),
        ensures
            r is Some ==> {
                let (x, y, e) = r.unwrap();
                &&& x < SECTORS && y < SECTORS
                &&& self.galaxy@[index_spec(x as int, y as int, self.position.2 as int, self.position.3 as int)] == Some(e)
                &&& if base { e == Entity::Base } else { interesting(e) }
            },
            r is Some <==> self.is_nearby(base),
    {
        let (i, j, xx, yy) = self.position;
        let adj = adjacent(i, j);
        let mut k: usize = 0;
        while k < adj.len()
            invariant
                self.wf(),
                (i, j, xx, yy) == self.position,
                adj@ == crate::grid::adjacent_spec(i as int, j as int),
                k <= adj@.len(),
                forall|q: int| 0 <= q < adj@.len() ==> adj@[q].0 < SECTORS && adj@[q].1 < SECTORS,
                forall|q: int| 0 <= q < k ==> !#[trigger] sought(
                    self.galaxy@[index_spec(adj@[q].0 as int, adj@[q].1 as int, xx as int, yy as int)], base),
            decreases adj@.len() - k,
        {
            let (x, y) = adj[k];
            let cell = self.galaxy[index(x, y, xx, yy)];
            if is_sought(cell, base) {
                let ghost q = k as int;
                assert(sought(self.galaxy_view()[index_spec(adj@[q].0 as int, adj@[q].1 as int,
                    self.position_spec().2 as int, self.position_spec().3 as int)], base));
                assert(self.is_nearby(base));
                return Some((x, y, cell.unwrap()));
            }
            assert(!sought(self.galaxy@[index_spec(x as int, y as int, xx as int, yy as int)], base));
            k = k + 1;
        }
        None
    }

    /// Takes `gain` units of energy found at body `thing` in sector (x, y): energy rises,
    /// saturating at 255, and the find is logged
    pub fn gain_energy(&mut self, x: usize, y: usize, thing: Entity, gain: u8)
        requires
            old(self).wf(),
        ensures
            final(self).wf(),
            final(self).player_spec() == energized(old(self).player_spec(), gain),
            final(self).pages() == record_spec(old(self).pages(), investigate_entry(thing, x, y, gain)),
            final(self).last_entry_spec() == investigate_entry(thing, x, y, gain),
            final(self).galaxy_view() == old(self).galaxy_view(),
            final(self).position_spec() == old(self).position_spec(),
            final(self).mission_spec() == old(self).mission_spec(),
            final(self).date_spec() == old(self).date_spec(),
    {
        let mut entry: Vec<u8> = Vec::new();
        push_str(&mut entry, "\nInvestigated nearby ");
        let name = thing.display_bytes();
        crate::display::push_bytes(&mut entry, name.as_slice());
        push_str(&mut entry, ".\nAt SECTOR (");
        push_num(&mut entry, x);
        push_str(&mut entry, ", ");
        push_num(&mut entry, y);
        push_str(&mut entry, ").\nDiscovered ");
        push_num(&mut entry, gain as usize);
        push_str(&mut entry, " energy crystals!\n");
        assert(entry@ =~= investigate_entry(thing, x, y, gain));
        self.record(entry.as_slice());
        self.player.energy = self.player.energy.saturating_add(gain);
    }

    /// Investigates adjacent stars or planets for energy, then lets the adversaries act
    fn investigate(&mut self, term: &mut Terminal)
        requires
            old(self).wf(),
            old(term).wf(),
        ensures
            final(self).wf(),
            final(term).wf(),
            Self::investigate_post(old(self), final(self)),
    {
        if let Some((x, y, thing)) = self.nearby(false) {
            let draw = random_below(&mut self.rng, DIFFICULTY as u64);
            let energy: u8 = draw as u8;
            let mut msg: Vec<u8> = Vec::new();
            push_str(&mut msg, "Investigated nearby ");
            let mut name = thing.display_bytes();
            msg.append(&mut name);
            push_str(&mut msg, ".\nDiscovered ");
            push_num(&mut msg, energy as usize);
            push_str(&mut msg, " energy crystals!");
            term.message(msg.as_slice());
            self.gain_energy(x, y, thing, energy);
            self.evolve(true);
            assert(energy < DIFFICULTY);
            assert(worn(self.player_spec(), energized(old(self).player_spec(), energy)));
            term.update_console();
            return;
        } else {
            let mut msg: Vec<u8> = Vec::new();
            push_str(&mut msg, "Nothing interesting nearby, unable to investigate!");
            term.message(msg.as_slice());
        }
        self.evolve(true);
        term.update_console();
    }

    /// Docks the player's ship at an adjacent starbase: energy and shields are restored
    /// and the adversaries hold fire this turn; without a base they attack as usual
    fn dock(&mut self, term: &mut Terminal)
        requires
            old(self).wf(),
            old(term).wf(),
        ensures
            final(self).wf(),
            final(term).wf(),
            final(self).date == inc(old(self).date),
            final(self).mission == old(self).mission,
            final(self).position == old(self).position,
            old(self).is_nearby(true) ==> final(self).player == (Ship {
                energy: 255,
                shields: 255,
                ..old(self).player
            }),
            !old(self).is_nearby(true) ==> worn(final(self).player, old(self).player),
    {
        if let Some((x, y, _)) = self.nearby(true) {
            Self::show(term, "Docked with nearby base.
Energy and shields restored!
Protected from hostiles until next move.");
            let mut entry: Vec<u8> = Vec::new();
            push_str(&mut entry, "\nDocked with base in SECTOR: (");
            push_num(&mut entry, x);
            push_str(&mut entry, ", ");
            push_num(&mut entry, y);
            push_str(&mut entry, ").\nEnergy and shields restored!\n");
            self.record(entry.as_slice());
            self.player.shields = 255;
            self.player.energy = 255;
            self.evolve(false);
        } else {
            Self::show(term, "No bases nearby, unable to dock!");
            self.evolve(true);
        }
        term.update_console();
    }

    /// Fires the player's weapons at sector (x, y) of the current system: args are the
    /// amount (beam energy or torpedo count, saturated at 255), x and y. Reports when nothing
    /// hostile is there or it lies beyond the player's range; the adversaries then act.
    fn weapon(&mut self, args: &[usize], term: &mut Terminal, weapon: Weapon, name: &str)
        requires
            old(self).wf(),
            old(term).wf(),
        ensures
            final(self).wf(),
            final(term).wf(),
            final(self).player.energy <= old(self).player.energy,
            args@.len() == 3 && args@[0] > 0 && args@[1] < SECTORS && args@[2] < SECTORS ==> {
                &&& final(self).date == inc(old(self).date)
                &&& final(self).position == old(self).position
                &&& old(self).mission <= final(self).mission <= inc(old(self).mission)
            },
            !(args@.len() == 3 && args@[0] > 0 && args@[1] < SECTORS && args@[2] < SECTORS)
                ==> final(self).unchanged(old(self)),
            Self::weapon_ok(args@) ==> Self::weapon_post(old(self), final(self), args@, weapon),
            !Self::weapon_ok(args@) ==> final(term).shows(weapon_usage(name.spec_bytes())),
            Self::weapon_ok(args@) && old(self).target_ship(args@[1], args@[2]) is None
                ==> final(term).shows(no_target_message(args@[1], args@[2]))
                && extends(final(self).pages(), record_spec(old(self).pages(), no_target_message(args@[1], args@[2]))),
            Self::weapon_ok(args@) && old(self).target_ship(args@[1], args@[2]) is Some
                && !in_weapon_range(old(self).player.range, dist2(old(self).position.0 as int, old(self).position.1 as int,
                    args@[1] as int, args@[2] as int))
                ==> final(term).shows(out_of_range_message(args@[1], args@[2]))
                && extends(final(self).pages(), record_spec(old(self).pages(), out_of_range_message(args@[1], args@[2]))),
    {
        if args.len() == 3 {
            let amount = args[0];
            let x = args[1];
            let y = args[2];
            if amount > 0 && x < SECTORS && y < SECTORS {
                let (j, i, xx, yy) = self.position;
                let sector = index(x, y, xx, yy);
                let d2 = distance_squared(j, i, x, y);
                let mut msg: Vec<u8> = Vec::new();
                let target = self.galaxy[sector];
                let ship = match target {
                    Some(t) => t.ship(),
                    None => None,
                };
                match ship {
                    Some(ship) => {
                        let thing = target.unwrap();
                        let range: u64 = self.player.range as u64 + 1;
                        assert(range * range <= 256 * 256) by (nonlinear_arith)
                            requires range <= 256;
                        if d2 < range * range {
                            let beam: u8 = if amount > 255 { 255 } else { amount as u8 };
                            msg = match weapon {
                                Weapon::Laser => self.laser(sector, beam, thing, ship),
                                Weapon::Torpedo => self.torpedo(sector, beam, thing, ship),
                            };
                        } else {
                            push_str(&mut msg, "(");
                            push_num(&mut msg, x);
                            push_str(&mut msg, ", ");
                            push_num(&mut msg, y);
                            push_str(&mut msg, ") out of range!");
                            assert(msg@ =~= out_of_range_message(x, y));
                        }
                    },
                    None => {
                        push_str(&mut msg, "Nothing to target at (");
                        push_num(&mut msg, x);
                        push_str(&mut msg, ", ");
                        push_num(&mut msg, y);
                        push_str(&mut msg, ")!");
                        assert(msg@ =~= no_target_message(x, y));
                    },
                }
                self.record(msg.as_slice());
                term.display(msg.as_slice());
                self.evolve(true);
                return;
            }
        }
        let mut msg: Vec<u8> = Vec::new();
        push_str(&mut msg, name);
        push_str(&mut msg, " requires three positive
numeric arguments:

");
        push_str(&mut msg, name);
        push_str(&mut msg, " n x y

where n must be greater than zero.

Run HELP for more commands.");
        assert(msg@ =~= weapon_usage(name.spec_bytes()));
        term.display(msg.as_slice());
    }

    /// Display code of the player's ship: a full or a drained ship
    fn player_code(&self) -> (r: u8)
        ensures
            r == player_code_spec(self.player.energy),
    {
        if self.player.energy > 127 { 0x01 } else { 0x02 }
    }

    /// Prints a star chart for the current system and logs the number of adversaries
    fn scan(&mut self, term: &mut Terminal)
        requires
            old(self).wf(),
            old(term).wf(),
        ensures
            final(self).wf(),
            final(term).wf(),
            final(self).same_game(old(self)),
            ({
                let p = old(self).position;
                let n = system_count(old(self).galaxy@, p.2 as int, p.3 as int, p.0 as int, p.1 as int, 10);
                &&& final(self).pages() == record_spec(old(self).pages(), scan_entry(n))
                &&& final(self).last_entry_spec() == scan_entry(n)
                &&& final(term).shows(Self::scan_screen(old(self), n))
            }),
    {
        let mut out: Vec<u8> = Vec::new();
        let mut enemies: usize = 0;
        let (x, y, xx, yy) = self.position;
        push_str(&mut out, "\n\n    0 1 2 3 4 5 6 7 8 9");
        push_str(&mut out, "        PLAYER:     ");
        let pc = self.player_code();
        out.push(pc);
        let ghost head = out@;
        assert(head =~= "\n\n    0 1 2 3 4 5 6 7 8 9".spec_bytes() + "        PLAYER:     ".spec_bytes() + seq![pc]);
        let mut i: usize = 0;
        while i < SECTORS
            invariant
                self.wf(),
                self.position == (x, y, xx, yy),
                self.galaxy@ == old(self).galaxy@,
                enemies <= i * SECTORS,
                enemies == system_count(self.galaxy@, xx as int, yy as int, x as int, y as int, i as int),
                i <= SECTORS,
                pc == player_code_spec(self.player.energy),
                out@ == head + chart_rows(self.galaxy@, xx as int, yy as int, x as int, y as int, pc, i as int),
            decreases SECTORS - i,
        {
            push_str(&mut out, "\n  ");
            push_num(&mut out, i);
            let ghost start = out@;
            let mut j: usize = 0;
            while j < SECTORS
                invariant
                    self.wf(),
                    self.position == (x, y, xx, yy),
                    i < SECTORS,
                    j <= SECTORS,
                    enemies <= i * SECTORS + j,
                    pc == player_code_spec(self.player.energy),
                    out@ == start + chart_row(self.galaxy@, xx as int, yy as int, x as int, y as int, pc, i as int, j as int),
                    self.galaxy@ == old(self).galaxy@,
                    enemies == system_count(self.galaxy@, xx as int, yy as int, x as int, y as int, i as int)
                        + row_count(self.galaxy@, xx as int, yy as int, x as int, y as int, i as int, j as int),
                decreases SECTORS - j,
            {
                let ghost before = out@;
                out.push(32u8);
                if j == x && i == y {
                    out.push(pc);
                } else {
                    match self.galaxy[index(j, i, xx, yy)] {
                        None => out.push(0xFAu8),
                        Some(e) => {
                            if e.ship().is_some() {
                                enemies = enemies + 1;
                            }
                            out.push(e.code());
                        },
                    }
                }
                assert(out@ =~= before + chart_cell(self.galaxy@, xx as int, yy as int, x as int, y as int, pc, j as int, i as int));
                j = j + 1;
            }
            let ghost row_end = out@;
            assert(i * SECTORS + SECTORS == (i + 1) * SECTORS) by (nonlinear_arith);
            if i == 0 {
                push_str(&mut out, "        BLACK HOLE: ");
                out.push(0x07u8);
            } else if i == 1 {
                push_str(&mut out, "        STAR:       ");
                out.push(0x08u8);
            } else if i == 2 {
                push_str(&mut out, "        PLANET:     ");
                out.push(0x09u8);
            } else if i == 3 {
                push_str(&mut out, "        BASE:       ");
                out.push(0x0Bu8);
            } else if i == 4 {
                push_str(&mut out, "        KLARGONS:   ");
                out.push(0x03u8);
            } else if i == 5 {
                push_str(&mut out, "        REMULINS:   ");
                out.push(0x04u8);
            } else if i == 6 {
                push_str(&mut out, "        FARINGA:    ");
                out.push(0x05u8);
            } else if i == 7 {
                push_str(&mut out, "        BERG:       ");
                out.push(0x06u8);
            }
            assert(out@ =~= row_end + legend(i as int));
            assert(out@ =~= head + chart_rows(self.galaxy@, xx as int, yy as int, x as int, y as int, pc, i + 1));
            i = i + 1;
        }
        push_str(&mut out, "\n\n\n SECTOR:    (");
        push_num(&mut out, x);
        push_str(&mut out, ", ");
        push_num(&mut out, y);
        push_str(&mut out, ")\n SYSTEM:    (");
        push_num(&mut out, xx);
        push_str(&mut out, ", ");
        push_num(&mut out, yy);
        push_str(&mut out, ")\n ENERGY:    ");
        push_num(&mut out, self.player.energy as usize);
        push_str(&mut out, "\n SHIELDS:   ");
        push_num(&mut out, self.player.shields as usize);
        push_str(&mut out, "\n TORPEDOES: ");
        push_num(&mut out, self.player.torpedoes as usize);
        push_str(&mut out, "\n DATE:      ");
        push_num(&mut out, self.date);
        push_str(&mut out, "\n ENEMIES:   ");
        push_num(&mut out, enemies);
        push_str(&mut out, "\n MISSION:   ");
        push_num(&mut out, self.mission);
        let mut entry: Vec<u8> = Vec::new();
        push_str(&mut entry, "\nScan completed: ");
        push_num(&mut entry, enemies);
        push_str(&mut entry, " enemies detected in system!\n");
        self.record(entry.as_slice());
        assert(out@ =~= Self::scan_screen(old(self), enemies as nat));
        term.display(out.as_slice());
    }

    /// Counts of adversaries, bases and stars in system (sx, sy)
    fn system_totals(&self, sx: usize, sy: usize) -> (r: (usize, usize, usize))
        requires
            self.wf(),
            sx < SYSTEMS, sy < SYSTEMS,
        ensures
            r.0 == kind_count(self.galaxy@, sx as int, sy as int, 8, 10),
            r.1 == kind_count(self.galaxy@, sx as int, sy as int, 3, 10),
            r.2 == kind_count(self.galaxy@, sx as int, sy as int, 1, 10),
    {
        let ghost g = self.galaxy@;
        let mut enemies: usize = 0;
        let mut bases: usize = 0;
        let mut stars: usize = 0;
        let mut b: usize = 0;
        while b < SECTORS
            invariant
                self.wf(), g == self.galaxy@,
                sx < SYSTEMS, sy < SYSTEMS,
                b <= SECTORS,
                enemies == kind_count(g, sx as int, sy as int, 8, b as int),
                bases == kind_count(g, sx as int, sy as int, 3, b as int),
                stars == kind_count(g, sx as int, sy as int, 1, b as int),
                enemies <= 10 * b, bases <= 10 * b, stars <= 10 * b,
            decreases SECTORS - b,
        {
            let mut a: usize = 0;
            while a < SECTORS
                invariant
                    self.wf(), g == self.galaxy@,
                    sx < SYSTEMS, sy < SYSTEMS,
                    b < SECTORS, a <= SECTORS,
                    enemies == kind_count(g, sx as int, sy as int, 8, b as int) + row_kind_count(g, sx as int, sy as int, 8, b as int, a as int),
                    bases == kind_count(g, sx as int, sy as int, 3, b as int) + row_kind_count(g, sx as int, sy as int, 3, b as int, a as int),
                    stars == kind_count(g, sx as int, sy as int, 1, b as int) + row_kind_count(g, sx as int, sy as int, 1, b as int, a as int),
                    enemies <= 10 * b + a, bases <= 10 * b + a, stars <= 10 * b + a,
                decreases SECTORS - a,
            {
                match self.galaxy[index(a, b, sx, sy)] {
                    Some(Entity::Base) => bases = bases + 1,
                    Some(Entity::Star) => stars = stars + 1,
                    Some(e) => {
                        if e.ship().is_some() {
                            enemies = enemies + 1;
                        }
                    },
                    None => {},
                }
                a = a + 1;
            }
            b = b + 1;
        }
        (enemies, bases, stars)
    }

    /// Prints a chart of the galaxy: totals for the systems around the player's, stars
    /// elsewhere
    fn survey(&self, term: &mut Terminal)
        requires
            self.wf(),
            old(term).wf(),
        ensures
            final(term).wf(),
            final(term).shows(survey_screen(self.galaxy_view(), self.position_spec().2 as int, self.position_spec().3 as int)),
    {
        let mut out: Vec<u8> = Vec::new();
        let (_, _, xx, yy) = self.position;
        push_str(&mut out, "\n\n     0   1   2   3   4   5   6   7   8   9");
        let mut i: usize = 0;
        while i < SYSTEMS
            invariant
                self.wf(),
                self.position.2 == xx && self.position.3 == yy,
                i <= SYSTEMS,
                out@ == "\n\n     0   1   2   3   4   5   6   7   8   9".spec_bytes() + survey_rows(self.galaxy@, xx as int, yy as int, i as int),
            decreases SYSTEMS - i,
        {
            push_str(&mut out, "\n  ");
            push_num(&mut out, i);
            let ghost start = out@;
            let mut j: usize = 0;
            while j < SYSTEMS
                invariant
                    self.wf(),
                    self.position.2 == xx && self.position.3 == yy,
                    i < SYSTEMS,
                    j <= SYSTEMS,
                    out@ == start + survey_row(self.galaxy@, xx as int, yy as int, i as int, j as int),
                decreases SYSTEMS - j,
            {
                let ghost before = out@;
                out.push(32u8);
                if (j + 1 >= xx && j <= xx + 1) && (i + 1 >= yy && i <= yy + 1) {
                    let (enemies, bases, stars) = self.system_totals(j, i);
                    push_num(&mut out, enemies);
                    push_num(&mut out, bases);
                    push_num(&mut out, stars);
                } else {
                    push_str(&mut out, "***");
                }
                assert(out@ =~= before + survey_cell(self.galaxy@, xx as int, yy as int, j as int, i as int));
                j = j + 1;
            }
            assert(out@ =~= "\n\n     0   1   2   3   4   5   6   7   8   9".spec_bytes()
                + survey_rows(self.galaxy@, xx as int, yy as int, i + 1));
            i = i + 1;
        }
        push_str(&mut out, "\n\n\n    XYZ (SYSTEM TOTALS)\n    |||\n    ||+-> STARS\n    |+--> BASES\n    +---> ENEMIES\n");
        term.display(out.as_slice());
    }

    /// The arguments of a move: speed, target sector and optionally target system
    pub open spec fn move_ok(args: Seq<usize>) -> bool {
        &&& args.len() >= 3
        &&& args[0] > 0
        &&& args[1] < SECTORS && args[2] < SECTORS
        &&& args.len() == 5 ==> args[3] < SYSTEMS && args[4] < SYSTEMS
    }

    /// Records a completed movement step
    fn record_move(&mut self, x: usize, y: usize, xx: usize, yy: usize)
        requires
            old(self).wf(),
        ensures
            final(self).wf(),
            final(self).same_game(old(self)),
    {
        let mut msg: Vec<u8> = Vec::new();
        push_str(&mut msg, "\nMoved to SECTOR: (");
        push_num(&mut msg, x);
        push_str(&mut msg, ", ");
        push_num(&mut msg, y);
        push_str(&mut msg, ") in SYSTEM: (");
        push_num(&mut msg, xx);
        push_str(&mut msg, ", ");
        push_num(&mut msg, yy);
        push_str(&mut msg, ").\nRemaining ENERGY: ");
        push_num(&mut msg, self.player.energy as usize);
        push_str(&mut msg, "\n");
        self.record(msg.as_slice());
    }

    /// Moves the player's ship: first within the system towards sector (args[1], args[2])
    /// at speed args[0], taking collisions and letting adversaries act after each step,
    /// then, given args[3] and args[4], between systems at ten times the cost. Every step
    /// costs energy; the move ends early when the energy runs out or the ship falls into a
    /// black hole.
    fn movement(&mut self, args: &[usize], term: &mut Terminal)
        requires
            old(self).wf(),
            old(term).wf(),
        ensures
            final(self).wf(),
            final(term).wf(),
            !Self::move_ok(args@) ==> final(self).unchanged(old(self)) && final(term).shows(move_usage()),
            Self::move_ok(args@) ==> Self::move_post(old(self), final(self), args@),
    {
        if args.len() >= 3 {
            let speed = args[0];
            let x1 = args[1];
            let y1 = args[2];
            let five = args.len() == 5;
            if speed > 0 && x1 < SECTORS && y1 < SECTORS && (!five || (args[3] < SYSTEMS && args[4] < SYSTEMS)) {
                let (x0, y0, xx0, yy0) = self.position;
                let mut x = x0;
                let mut y = y0;
                let ghost mut stepped = false;
                let ghost g_start = old(self).galaxy@;
                let ghost total1 = path_cost(x0 as int, y0 as int, x1 as int, y1 as int, speed as int, 256);
                let ghost mut n: nat = 0;
                let ghost mut spent: int = 0;
                while self.player.energy > 0 && (x != x1 || y != y1)
                    invariant
                        g_start == old(self).galaxy@,
                        total1 == path_cost(x0 as int, y0 as int, x1 as int, y1 as int, speed as int, 256),
                        n + self.player.energy <= old(self).player.energy,
                        total1 == spent + path_cost(x as int, y as int, x1 as int, y1 as int, speed as int, (256 - n) as nat),
                        spent >= 0,
                        self.player.energy <= sat_sub(old(self).player.energy as int, spent),
                        path_steps(x0 as int, y0 as int, x1 as int, y1 as int, speed as int, 256)
                            == n + path_steps(x as int, y as int, x1 as int, y1 as int, speed as int, (256 - n) as nat),
                        old(self).date + 256 < usize::MAX ==> self.date == old(self).date + n,
                        kept(self.galaxy@, g_start, xx0 as int, yy0 as int, cell_of(old(self).position)),
                        path_hits_black_hole(g_start, x0 as int, y0 as int, x1 as int, y1 as int, speed as int, xx0 as int, yy0 as int, 256)
                            ==> path_hits_black_hole(g_start, x as int, y as int, x1 as int, y1 as int, speed as int, xx0 as int,
                            yy0 as int, (256 - n) as nat),
                        adversary_free(g_start, xx0 as int, yy0 as int)
                            && path_clear(g_start, x0 as int, y0 as int, x1 as int, y1 as int, speed as int, xx0 as int, yy0 as int, 256)
                            ==> {
                            &&& self.galaxy@ == g_start
                            &&& path_clear(g_start, x as int, y as int, x1 as int, y1 as int, speed as int, xx0 as int, yy0 as int, (256 - n) as nat)
                            &&& self.player == (Ship { energy: sat_sub(old(self).player.energy as int, spent) as u8, ..old(self).player })
                        },
                        worn(self.player, old(self).player),
                        stepped ==> self.player.energy < old(self).player.energy,
                        (x != x0 || y != y0) ==> stepped,
                        stepped && self.player.energy > 0
                            ==> self.galaxy@[index_spec(x as int, y as int, xx0 as int, yy0 as int)] != Some(Entity::BlackHole),
                        self.wf(),
                        self.position == old(self).position,
                        self.position == (x0, y0, xx0, yy0),
                        x < SECTORS, y < SECTORS,
                        x1 < SECTORS, y1 < SECTORS, speed > 0,
                        speed == args@[0], x1 == args@[1], y1 == args@[2],
                        Self::move_ok(args@),
                        term.wf(),
                        self.player.energy <= old(self).player.energy,
                        self.mission == old(self).mission,
                    decreases self.player.energy,
                {
                    let ghost (px, py) = (x as int, y as int);
                    let (nx, ny, cost) = step_toward(x, y, x1, y1, speed);
                    x = nx;
                    y = ny;
                    self.player.energy = self.player.energy.saturating_sub(cost);
                    proof {
                        stepped = true;
                        assert(256 - n > 0);
                        assert(path_cost(px, py, x1 as int, y1 as int, speed as int, (256 - n) as nat)
                            == cost + path_cost(x as int, y as int, x1 as int, y1 as int, speed as int, (256 - n - 1) as nat));
                        spent = spent + cost;
                        n = n + 1;
                    }
                    self.record_move(x, y, xx0, yy0);
                    if let Some(e) = self.galaxy[index(x, y, xx0, yy0)] {
                        if e == Entity::BlackHole {
                            let mut msg: Vec<u8> = Vec::new();
                            push_str(&mut msg, "\nYour ship fell into a black hole!
The hull lost integrity under the intense
gravitational pull and was crushed along
with any remaining crew onboard.\n");
                            self.record(msg.as_slice());
                            self.player.energy = 0;
                            return;
                        }
                        let mut dmg: u8 = random_below(&mut self.rng, DIFFICULTY as u64) as u8;
                        if self.player.shields > dmg {
                            self.player.shields = self.player.shields - dmg;
                        } else {
                            dmg = dmg - self.player.shields;
                            self.player.shields = 0;
                            self.player.energy = self.player.energy.saturating_sub(dmg);
                        }
                        let mut msg: Vec<u8> = Vec::new();
                        push_str(&mut msg, "\nCollided with: ");
                        let mut name = e.display_bytes();
                        msg.append(&mut name);
                        push_str(&mut msg, "!\nRemaining ENERGY: ");
                        push_num(&mut msg, self.player.energy as usize);
                        push_str(&mut msg, "\nRemaining SHIELDS: ");
                        push_num(&mut msg, self.player.shields as usize);
                        push_str(&mut msg, "\n");
                        self.record(msg.as_slice());
                    }
                    let ghost g0 = self.galaxy@;
                    assert(g0[index_spec(x as int, y as int, xx0 as int, yy0 as int)] != Some(Entity::BlackHole));
                    proof {
                        if adversary_free(g_start, xx0 as int, yy0 as int) && path_clear(g_start, x0 as int, y0 as int,
                            x1 as int, y1 as int, speed as int, xx0 as int, yy0 as int, 256) {
                            assert(attackers_spec(g0, self.position, true) =~= Set::<(int, int)>::empty()) by {
                                assert forall|c: (int, int)| !attackers_spec(g0, self.position, true).contains(c) by {
                                    if 0 <= c.0 < 10 && 0 <= c.1 < 10 {
                                        assert(adversary_at(g_start, xx0 as int, yy0 as int, c.0, c.1) is None);
                                    }
                                }
                            }
                        }
                    }
                    self.evolve(true);
                    proof {
                        lemma_kept_trans(g_start, g0, self.galaxy@, xx0 as int, yy0 as int, cell_of(old(self).position));
                    }
                    assert(self.galaxy@[index_spec(x as int, y as int, xx0 as int, yy0 as int)] != Some(Entity::BlackHole));
                }
                assert(old(self).player.energy > 0 && (x0 != x1 || y0 != y1)
                    ==> self.player.energy < old(self).player.energy);
                let ghost eqcond = adversary_free(g_start, xx0 as int, yy0 as int)
                    && path_clear(g_start, x0 as int, y0 as int, x1 as int, y1 as int, speed as int, xx0 as int, yy0 as int, 256);
                let ghost date1 = self.date;
                proof {
                    if self.player.energy > 0 {
                        assert(x == x1 && y == y1);
                        assert(spent == total1);
                        assert(!path_hits_black_hole(g_start, x as int, y as int, x1 as int, y1 as int, speed as int, xx0 as int,
                            yy0 as int, (256 - n) as nat));
                    }
                }
                let ghost total2 = if five { path_cost(xx0 as int, yy0 as int, args@[3] as int, args@[4] as int, speed as int, 256) } else { 0 };
                let ghost mut m: nat = 0;
                let ghost mut spent2: int = 0;
                let mut xx = xx0;
                let mut yy = yy0;
                if five {
                    let xx1 = args[3];
                    let yy1 = args[4];
                    while self.player.energy > 0 && (xx != xx1 || yy != yy1)
                        invariant
                            self.wf(),
                            self.position == old(self).position,
                            xx < SYSTEMS, yy < SYSTEMS, xx1 < SYSTEMS, yy1 < SYSTEMS,
                            speed > 0, x < SECTORS, y < SECTORS,
                            xx1 == args@[3], yy1 == args@[4],
                            self.player.energy > 0 ==> x == args@[1] && y == args@[2],
                            term.wf(),
                            self.player.energy <= old(self).player.energy,
                            worn(self.player, old(self).player),
                            old(self).player.energy > 0 && (x0 != args@[1] || y0 != args@[2])
                                ==> self.player.energy < old(self).player.energy,
                            (x0, y0, xx0, yy0) == old(self).position,
                            self.mission == old(self).mission,
                            five,
                            total2 == path_cost(xx0 as int, yy0 as int, xx1 as int, yy1 as int, speed as int, 256),
                            total2 == spent2 + path_cost(xx as int, yy as int, xx1 as int, yy1 as int, speed as int, (256 - m) as nat),
                            m + self.player.energy <= old(self).player.energy,
                            spent2 >= 0, total1 >= 0,
                            self.player.energy <= sat_sub(old(self).player.energy as int, total1 + 10 * spent2),
                            eqcond ==> self.player == (Ship {
                                energy: sat_sub(old(self).player.energy as int, total1 + 10 * spent2) as u8,
                                ..old(self).player
                            }),
                            path_hits_black_hole(g_start, x0 as int, y0 as int, x1 as int, y1 as int, speed as int, xx0 as int, yy0 as int, 256)
                                ==> self.player.energy == 0,
                            self.date == date1,
                            old(self).date + 256 < usize::MAX && self.player.energy > 0 ==> self.date
                                == old(self).date + path_steps(x0 as int, y0 as int, x1 as int, y1 as int, speed as int, 256),
                        decreases self.player.energy,
                    {
                        let ghost (pxx, pyy) = (xx as int, yy as int);
                        let (nx, ny, cost) = step_toward(xx, yy, xx1, yy1, speed);
                        xx = nx;
                        yy = ny;
                        proof {
                            assert(path_cost(pxx, pyy, xx1 as int, yy1 as int, speed as int, (256 - m) as nat)
                                == cost + path_cost(xx as int, yy as int, xx1 as int, yy1 as int, speed as int, (256 - m - 1) as nat));
                            spent2 = spent2 + cost;
                            m = m + 1;
                        }
                        let cost10: u8 = if cost > 25 { 255 } else { cost * 10 };
                        self.player.energy = self.player.energy.saturating_sub(cost10);
                        self.record_move(x, y, xx, yy);
                    }
                }
                self.position = (x, y, xx, yy);
                self.scan(term);
                return;
            }
        }
        Self::show(term, "MOVE requires at least three positive
numeric arguments:

    MOVE s x y [X Y]

The speed s must be greater than zero.

Run HELP for more commands.");
    }

    /// Initialises a new game: the galaxy is generated from random draws seeded by `seed`
    /// and the player starts at a random spawn position, whose cell is emptied
    pub fn new(seed: u64) -> (r: GameState)
        ensures
            r.wf(),
            pos_ok(r.position_spec()),
            r.galaxy_view()[cell_of(r.position_spec())] is None,
            r.player_spec() == (Ship { energy: 255, shields: 255, torpedoes: 5, range: 7 }),
            r.mission_spec() == 0,
            r.date_spec() == 0,
            r.pages() == seq![Seq::<u8>::empty()],
            r.last_entry_spec() == "COMPUTER ERROR: NO ENTRY AVAILABLE".spec_bytes(),
            exists|g: Seq<Option<Entity>>| generated(g) && r.galaxy_view() == g.update(cell_of(r.position_spec()), None),
    {
        let mut rng = seeded_rng(seed);
        let mut galaxy = generate_galaxy(&mut rng);
        let ghost g = galaxy@;
        assert(generated(g));
        let mut logbook: Vec<Vec<u8>> = Vec::new();
        logbook.push(Vec::new());
        let mut last_entry: Vec<u8> = Vec::new();
        push_str(&mut last_entry, "COMPUTER ERROR: NO ENTRY AVAILABLE");
        let position = (
            random_below(&mut rng, SECTORS as u64) as usize,
            random_below(&mut rng, SECTORS as u64) as usize,
            random_below(&mut rng, SYSTEMS as u64) as usize,
            random_below(&mut rng, SYSTEMS as u64) as usize,
        );
        galaxy.set(index(position.0, position.1, position.2, position.3), None);
        let r = GameState {
            galaxy,
            logbook,
            last_entry,
            page: 0,
            position,
            player: Ship { energy: 255, shields: 255, torpedoes: 5, range: 7 },
            mission: 0,
            date: 0,
            rng,
        };
        assert(r.pages() =~= seq![Seq::<u8>::empty()]);
        assert(r.last_entry@ =~= "COMPUTER ERROR: NO ENTRY AVAILABLE".spec_bytes());
        r
    }

    /// A game in an empty galaxy, with the player at `position` and random draws seeded
    /// from `seed`
    pub fn empty(seed: u64, position: (usize, usize, usize, usize)) -> (r: GameState)
        requires
            pos_ok(position),
        ensures
            r.wf(),
            r.galaxy_view() == Seq::new(CELLS as nat, |i: int| None::<Entity>),
            r.position_spec() == position,
            r.player_spec() == (Ship { energy: 255, shields: 255, torpedoes: 5, range: 7 }),
            r.mission_spec() == 0,
            r.date_spec() == 0,
    {
        let mut r = Self::new(seed);
        r.galaxy = vec![None; CELLS];
        r.position = position;
        assert(r.galaxy_view() =~= Seq::new(CELLS as nat, |i: int| None::<Entity>));
        r
    }

    /// The entity in sector (x, y) of system (sx, sy)
    pub fn entity_at(&self, x: usize, y: usize, sx: usize, sy: usize) -> (r: Option<Entity>)
        requires
            self.wf(),
            x < SECTORS, y < SECTORS, sx < SYSTEMS, sy < SYSTEMS,
        ensures
            r == self.galaxy_view()[index_spec(x as int, y as int, sx as int, sy as int)],
    {
        self.galaxy[index(x, y, sx, sy)]
    }

    /// Puts `cell` into sector (x, y) of system (sx, sy)
    pub fn place(&mut self, x: usize, y: usize, sx: usize, sy: usize, cell: Option<Entity>)
        requires
            old(self).wf(),
            x < SECTORS, y < SECTORS, sx < SYSTEMS, sy < SYSTEMS,
        ensures
            final(self).wf(),
            final(self).galaxy_view() == old(self).galaxy_view().update(
                index_spec(x as int, y as int, sx as int, sy as int),
                cell,
            ),
            final(self).player_spec() == old(self).player_spec(),
            final(self).position_spec() == old(self).position_spec(),
            final(self).mission_spec() == old(self).mission_spec(),
            final(self).date_spec() == old(self).date_spec(),
    {
        self.galaxy.set(index(x, y, sx, sy), cell);
    }

    /// The player's ship
    pub fn player(&self) -> (r: Ship)
        ensures
            r == self.player_spec(),
    {
        self.player
    }

    /// Replaces the player's ship
    pub fn set_player(&mut self, ship: Ship)
        requires
            old(self).wf(),
        ensures
            final(self).wf(),
            final(self).player_spec() == ship,
            final(self).galaxy_view() == old(self).galaxy_view(),
            final(self).position_spec() == old(self).position_spec(),
            final(self).mission_spec() == old(self).mission_spec(),
            final(self).date_spec() == old(self).date_spec(),
    {
        self.player = ship;
    }

    /// The player's position: sector (x, y) in system (sx, sy)
    pub fn position(&self) -> (r: (usize, usize, usize, usize))
        ensures
            r == self.position_spec(),
    {
        self.position
    }

    /// Number of adversaries destroyed
    pub fn mission(&self) -> (r: usize)
        ensures
            r == self.mission_spec(),
    {
        self.mission
    }

    /// Number of time periods elapsed
    pub fn date(&self) -> (r: usize)
        ensures
            r == self.date_spec(),
    {
        self.date
    }

    /// Number of pages in the logbook
    pub fn page_count(&self) -> (r: usize)
        requires
            self.wf(),
        ensures
            r == self.pages().len(),
    {
        self.logbook.len()
    }

    /// Page `i` of the logbook, counting from 0
    pub fn page(&self, i: usize) -> (r: &[u8])
        requires
            self.wf(),
            i < self.pages().len(),
        ensures
            r@ == self.pages()[i as int],
    {
        self.logbook[i].as_slice()
    }

    /// Returns the final entry in the log
    pub fn final_log(&self) -> (r: &[u8])
        ensures
            r@ == self.last_entry_spec(),
    {
        self.last_entry.as_slice()
    }

    /// Determines the player score, given the date bonus `⌊100·e^(−date/100)⌋`
    pub fn score(&self, date_bonus: usize) -> (r: usize)
        requires
            score_spec(self.mission_spec() as int, date_bonus as int, 255, 255) <= usize::MAX,
        ensures
            r == score_spec(self.mission_spec() as int, date_bonus as int,
                self.player_spec().energy as int, self.player_spec().shields as int),
    {
        let m = self.mission;
        assert(m * m <= usize::MAX && 5 * (m * m) <= usize::MAX && 5 * (m * m) == 5 * m * m) by (nonlinear_arith)
            requires 5 * m * m + date_bonus + 4 * 255 + 3 * 255 <= usize::MAX, date_bonus >= 0, m >= 0;
        let mission = 5 * (m * m);
        let energy = 4 * (self.player.energy as usize);
        let shields = 3 * (self.player.shields as usize);
        mission + date_bonus + energy + shields
    }

    /// Parses a command line and dispatches it. Returns 0 while play goes on, 1 once the
    /// mission is accomplished and 2 once the player's ship has no energy left; a blank
    /// line changes nothing and returns 0.
    pub fn process_command(&mut self, command: &[u8], term: &mut Terminal) -> (r: u8)
        requires
            old(self).wf(),
            old(term).wf(),
        ensures
            final(self).wf(),
            final(term).wf(),
            words(command@).len() == 0 ==> r == 0 && final(self).same_game(old(self)),
            words(command@).len() > 0 ==> r == status_spec(final(self).mission_spec(), final(self).player_spec().energy),
            old(self).mission_spec() <= final(self).mission_spec() <= inc(old(self).mission_spec()),
            final(self).player_spec().energy <= old(self).player_spec().energy
                || (words(command@).len() > 0 && (command_spec(words(command@)[0]) == Command::Dock
                    || command_spec(words(command@)[0]) == Command::Investigate)),
            words(command@).len() > 0 ==> {
                let c = command_spec(words(command@)[0]);
                let args = numbers(words(command@));
                &&& (c == Command::Help || c == Command::Survey || c == Command::Log || c == Command::Unknown)
                    ==> final(self).unchanged(old(self))
                &&& c == Command::Scan ==> {
                    let p = old(self).position_spec();
                    let n = system_count(old(self).galaxy_view(), p.2 as int, p.3 as int, p.0 as int, p.1 as int, 10);
                    &&& final(self).same_game(old(self))
                    &&& final(self).pages() == record_spec(old(self).pages(), scan_entry(n))
                }
                &&& c == Command::Quit ==> {
                    &&& final(self).player_spec() == (Ship { energy: 0, ..old(self).player_spec() })
                    &&& final(self).galaxy_view() == old(self).galaxy_view()
                    &&& final(self).position_spec() == old(self).position_spec()
                    &&& final(self).mission_spec() == old(self).mission_spec()
                    &&& final(self).date_spec() == old(self).date_spec()
                }
                &&& c == Command::Move ==> if Self::move_ok(args) {
                    Self::move_post(old(self), final(self), args)
                } else {
                    final(self).unchanged(old(self))
                }
                &&& (c == Command::Laser || c == Command::Torpedo) ==> if Self::weapon_ok(args) {
                    Self::weapon_post(old(self), final(self), args, if c == Command::Laser { Weapon::Laser } else { Weapon::Torpedo })
                } else {
                    final(self).unchanged(old(self))
                }
                &&& c == Command::Shields ==> if Self::shields_ok(args, old(self).player_spec()) {
                    &&& final(self).date_spec() == inc(old(self).date_spec())
                    &&& worn(final(self).player_spec(), Self::shielded(old(self).player_spec(), args[0] as u8))
                } else {
                    final(self).unchanged(old(self))
                }
                &&& c == Command::Investigate ==> Self::investigate_post(old(self), final(self))
                &&& c == Command::Dock ==> old(self).is_nearby(true) ==> final(self).player_spec() == (Ship {
                    energy: 255,
                    shields: 255,
                    ..old(self).player_spec()
                })
                &&& c == Command::Dock ==> final(self).date_spec() == inc(old(self).date_spec())
                &&& c == Command::Dock && !old(self).is_nearby(true) ==> worn(final(self).player_spec(), old(self).player_spec())
                &&& c == Command::Unknown ==> final(term).shows(unknown_message(words(command@)[0]))
                &&& c == Command::Move && !Self::move_ok(args) ==> final(term).shows(move_usage())
                &&& c == Command::Shields && !Self::shields_ok(args, old(self).player_spec()) ==> final(term).shows(shields_usage())
                &&& c == Command::Shields && Self::shields_ok(args, old(self).player_spec()) && old(self).calm()
                    ==> final(self).player_spec() == Self::shielded(old(self).player_spec(), args[0] as u8)
            },
    {
        let ws = split_words(command);
        if ws.len() == 0 {
            return 0;
        }
        let args = numeric_args(&ws);
        proof {
            assert(ws@.map_values(|w: Vec<u8>| w@) =~= words(command@));
        }
        let c = command_of(ws[0].as_slice());
        match c {
            Command::Help => self.help(term),
            Command::Move => self.movement(args.as_slice(), term),
            Command::Laser => self.weapon(args.as_slice(), term, Weapon::Laser, "LASER"),
            Command::Torpedo => self.weapon(args.as_slice(), term, Weapon::Torpedo, "TORPEDO"),
            Command::Shields => self.shields(args.as_slice(), term),
            Command::Scan => self.scan(term),
            Command::Survey => self.survey(term),
            Command::Investigate => self.investigate(term),
            Command::Dock => self.dock(term),
            Command::Log => self.log(args.as_slice(), term),
            Command::Quit => {
                self.player.energy = 0;
            },
            Command::Unknown => {
                let mut msg: Vec<u8> = Vec::new();
                push_str(&mut msg, "Unrecognised command:\n\n    '");
                crate::display::push_bytes(&mut msg, ws[0].as_slice());
                push_str(&mut msg, "'\n\nTry the HELP command for a list of possible\ncommands!");
                assert(msg@ =~= unknown_message(words(command@)[0]));
                term.display(msg.as_slice());
            },
        }
        if self.mission >= MISSION {
            1
        } else if self.player.energy == 0 {
            2
        } else {
            0
        }
    }
}

} // verus!
