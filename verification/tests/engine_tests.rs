use ant_sim::AgentHandle;
use ant_sim::AntCellState;
use ant_sim::AntEntity;
use ant_sim::AntEntityState;
use ant_sim::AntMutEntityState;
use ant_sim::Color;
use ant_sim::Pheremones;
use ant_sim::Prng;
use ant_sim::UserConf;
use ant_sim::WanderDirection;
use ant_sim::WanderingState;
use ant_sim::engine::AntEngine;
use ant_sim::error::AntError;
use ant_sim::generator::AntUniverseGenerator;
use ant_sim::generator::init_universe;
use ant_sim::grid::Grid;

fn empty_cell() -> AntCellState {
    AntCellState::Empty(Pheremones { wandering: 0, returning: 0 })
}

fn wandering(x_dir: WanderDirection, y_dir: WanderDirection) -> AntEntityState {
    AntEntityState::Wandering(WanderingState { x_dir, y_dir })
}

fn agent_at_home(state: AntEntityState, nest_x: usize, nest_y: usize) -> AntEntity {
    AntEntity { state, mut_state: AntMutEntityState { nest_x, nest_y } }
}

fn small_engine(size: usize) -> AntEngine {
    let grid = Grid::new_filled(size, empty_cell());
    AntEngine::new(grid, UserConf::default(), 1234, 5678)
}

#[test]
fn default_conf_is_accepted() {
    let conf = UserConf::default();
    assert!(conf.validate());
}

#[test]
fn bad_conf_is_rejected_and_old_one_stays() {
    let mut engine = small_engine(3);
    let good = engine.conf;
    let mut bad = UserConf::default();
    bad.pheremone_decay_multiplier = 1000;
    assert_eq!(engine.set_user_conf(bad), Err(AntError::InvalidConf));
    assert_eq!(engine.conf, good);

    let mut better = UserConf::default();
    better.base_wandering_weight = 2000;
    assert_eq!(engine.set_user_conf(better), Ok(()));
    assert_eq!(engine.conf.base_wandering_weight, 2000);
}

#[test]
fn stale_handles_are_rejected() {
    let mut engine = small_engine(3);
    let e = agent_at_home(wandering(WanderDirection::Stay, WanderDirection::Stay), 0, 0);
    let h = engine.add_agent(e, 1, 1).unwrap();
    assert!(engine.get_verify(h).is_ok());
    let stale = AgentHandle { index: h.index, generation: h.generation + 1 };
    assert_eq!(engine.get_verify(stale), Err(AntError::StaleHandle));
    let gone = AgentHandle { index: 17, generation: 0 };
    assert_eq!(engine.get_verify(gone), Err(AntError::StaleHandle));
}

#[test]
fn relocate_moves_occupancy_lists() {
    let mut engine = small_engine(3);
    let e = agent_at_home(wandering(WanderDirection::Stay, WanderDirection::Stay), 0, 0);
    let h = engine.add_agent(e, 1, 1).unwrap();
    assert_eq!(engine.occupants(1, 1).unwrap().len(), 1);
    assert_eq!(engine.relocate(h, 2, 2), Ok(()));
    assert_eq!(engine.occupants(1, 1).unwrap().len(), 0);
    let occ = engine.occupants(2, 2).unwrap();
    assert_eq!(occ.len(), 1);
    assert_eq!(occ[0], h);
}

#[test]
fn relocate_rejects_barriers_and_edges() {
    let mut engine = small_engine(3);
    engine.grid.set_cell(2, 2, AntCellState::Barrier);
    let e = agent_at_home(wandering(WanderDirection::Stay, WanderDirection::Stay), 0, 0);
    let h = engine.add_agent(e, 1, 1).unwrap();
    assert_eq!(engine.relocate(h, 2, 2), Err(AntError::InvalidDestination));
    assert_eq!(engine.relocate(h, 3, 0), Err(AntError::OutOfRange));
    let stale = AgentHandle { index: h.index, generation: 9 };
    assert_eq!(engine.relocate(stale, 0, 0), Err(AntError::StaleHandle));
    // the failed attempts left the agent where it was
    assert_eq!(engine.occupants(1, 1).unwrap().len(), 1);
}

#[test]
fn add_agent_out_of_range_is_an_error() {
    let mut engine = small_engine(3);
    let e = agent_at_home(wandering(WanderDirection::Stay, WanderDirection::Stay), 0, 0);
    assert_eq!(engine.add_agent(e, 3, 1), Err(AntError::OutOfRange));
}

#[test]
fn wandering_agent_on_food_eats_and_turns_home() {
    let mut engine = small_engine(3);
    engine.grid.set_cell(1, 1, AntCellState::Food(2));
    let e = agent_at_home(wandering(WanderDirection::Stay, WanderDirection::Stay), 0, 0);
    let h = engine.add_agent(e, 1, 1).unwrap();
    engine.step();
    assert_eq!(engine.cell_at(1, 1), Ok(AntCellState::Food(1)));
    let after = engine.get_verify(h).unwrap();
    assert_eq!(
        after.state,
        AntEntityState::ReturningToNestWithFood { last_diff: (0, 0) }
    );
}

#[test]
fn eating_the_last_unit_empties_the_cell() {
    let mut engine = small_engine(3);
    engine.grid.set_cell(1, 1, AntCellState::Food(1));
    let e = agent_at_home(wandering(WanderDirection::Stay, WanderDirection::Stay), 0, 0);
    let h = engine.add_agent(e, 1, 1).unwrap();
    engine.step();
    assert_eq!(
        engine.cell_at(1, 1),
        Ok(AntCellState::Empty(Pheremones { wandering: 0, returning: 0 }))
    );
    assert_eq!(
        engine.get_verify(h).unwrap().state,
        AntEntityState::ReturningToNestWithFood { last_diff: (0, 0) }
    );
}

#[test]
fn returning_agent_on_anthill_deposits_and_wanders() {
    let mut engine = small_engine(3);
    engine.grid.set_cell(1, 1, AntCellState::Anthill);
    let e = agent_at_home(
        AntEntityState::ReturningToNestWithFood { last_diff: (0, 0) }, 1, 1);
    let h = engine.add_agent(e, 1, 1).unwrap();
    engine.step();
    match engine.get_verify(h).unwrap().state {
        AntEntityState::Wandering(_) => {},
        other => panic!("expected a wandering agent, found {:?}", other),
    }
    assert_eq!(engine.count_collected_food(), 1);
    // the counter resets once read
    assert_eq!(engine.count_collected_food(), 0);
}

#[test]
fn two_tick_foraging_scenario() {
    // a 5x5 world, one wandering agent at (2,2), three units of food at
    // (2,3), everything else empty with clean trails
    let mut engine = small_engine(5);
    engine.grid.set_cell(2, 3, AntCellState::Food(3));
    let e = agent_at_home(wandering(WanderDirection::Stay, WanderDirection::Stay), 2, 2);
    let h = engine.add_agent(e, 2, 2).unwrap();

    // tick one: the agent sees the food, steps onto it, and lays half a
    // unit of both trails on the cell it left
    engine.step();
    let occ = engine.occupants(2, 3).unwrap();
    assert_eq!(occ.len(), 1);
    assert_eq!(occ[0].index, h.index);
    assert_eq!(
        engine.cell_at(2, 2),
        Ok(AntCellState::Empty(Pheremones { wandering: 500, returning: 500 }))
    );
    assert_eq!(engine.cell_at(2, 3), Ok(AntCellState::Food(3)));

    // tick two: standing on food, it eats one unit and turns homeward
    engine.step();
    assert_eq!(engine.cell_at(2, 3), Ok(AntCellState::Food(2)));
    assert_eq!(
        engine.get_verify(h).unwrap().state,
        AntEntityState::ReturningToNestWithFood { last_diff: (0, 0) }
    );
}

#[test]
fn identical_seeds_give_identical_runs() {
    let conf = UserConf::default();
    let mut a = init_universe(conf, 40, 7, 11).unwrap();
    let mut b = init_universe(conf, 40, 7, 11).unwrap();
    for _ in 0..30 {
        a.step();
        b.step();
    }
    assert_eq!(a.grid.cells, b.grid.cells);
    assert_eq!(a.store.slots, b.store.slots);
    assert_eq!(a.rng, b.rng);
    assert_eq!(a.collected_food, b.collected_food);
    assert_eq!(a.tick, b.tick);
}

#[test]
fn generator_places_an_anthill_with_a_cleared_ring() {
    let generator = AntUniverseGenerator { conf: UserConf::default() };
    let mut rng = Prng::new(3, 4);
    let (grid, ax, ay) = generator.gen(40, &mut rng);
    assert!(ax < 40 && ay < 40);
    assert_eq!(grid.cell_at(ax, ay), Ok(AntCellState::Anthill));
    // every other in-bounds cell within Chebyshev distance two is clean
    for px in ax.saturating_sub(2)..=(ax + 2).min(39) {
        for py in ay.saturating_sub(2)..=(ay + 2).min(39) {
            if (px, py) != (ax, ay) {
                assert_eq!(grid.cell_at(px, py), Ok(empty_cell()));
            }
        }
    }
}

#[test]
fn init_universe_builds_the_colony() {
    let conf = UserConf::default();
    let engine = init_universe(conf, 40, 5, 6).unwrap();
    assert_eq!(engine.store.len(), conf.ant_count);
    // the whole colony starts wandering on the anthill, homed there
    let home_cell = engine.store.slots[0].cell;
    let (hx, hy) = (home_cell % 40, home_cell / 40);
    assert_eq!(engine.cell_at(hx, hy), Ok(AntCellState::Anthill));
    for slot in engine.store.slots.iter() {
        let agent = slot.entity.expect("every slot holds an agent");
        assert!(matches!(agent.state, AntEntityState::Wandering(_)));
        assert_eq!(slot.cell, home_cell);
        assert_eq!(agent.mut_state, AntMutEntityState { nest_x: hx, nest_y: hy });
    }

    let mut bad = conf;
    bad.scout_pursuit_cutoff = 0;
    assert!(matches!(init_universe(bad, 40, 5, 6), Err(AntError::InvalidConf)));
    assert!(matches!(init_universe(conf, 0, 5, 6), Err(AntError::InvalidConf)));
}

#[test]
fn wander_directions_map_to_offsets() {
    assert_eq!(WanderDirection::Up.get_coord_offset(), -1);
    assert_eq!(WanderDirection::Stay.get_coord_offset(), 0);
    assert_eq!(WanderDirection::Down.get_coord_offset(), 1);
}

#[test]
fn wander_direction_transition_chances() {
    let mut rng = Prng::new(0, 0);
    // a zero chance never changes the direction
    for _ in 0..20 {
        assert_eq!(WanderDirection::Up.next(0, &mut rng), WanderDirection::Up);
    }
    // a certain chance always moves off the axis ends
    for _ in 0..20 {
        assert_eq!(WanderDirection::Up.next(10000, &mut rng), WanderDirection::Stay);
        assert_eq!(WanderDirection::Down.next(10000, &mut rng), WanderDirection::Stay);
        let moved = WanderDirection::Stay.next(10000, &mut rng);
        assert!(moved == WanderDirection::Up || moved == WanderDirection::Down);
    }
}

#[test]
fn colors_follow_occupant_then_cell() {
    let mut engine = small_engine(3);
    engine.grid.set_cell(0, 0, AntCellState::Barrier);
    engine.grid.set_cell(0, 1, AntCellState::Food(1));
    engine.grid.set_cell(1, 1, AntCellState::Empty(
        Pheremones { wandering: 2000, returning: 12000 }));
    assert_eq!(engine.calc_color(0, 0), Ok((255, 255, 255, 120)));
    assert_eq!(engine.calc_color(0, 1), Ok((12, 223, 30, 120)));
    // 2000 * 25 / 1000 = 50; 12000 * 25 / 1000 = 300, clipped to 255
    assert_eq!(engine.calc_color(1, 1), Ok((255, 12, 50, 120)));
    assert_eq!(engine.calc_color(3, 3), Err(AntError::OutOfRange));

    let e = agent_at_home(wandering(WanderDirection::Stay, WanderDirection::Stay), 0, 0);
    engine.add_agent(e, 1, 1).unwrap();
    assert_eq!(engine.calc_color(1, 1), Ok((67, 239, 55, 255)));
}

#[test]
fn color_new_keeps_channels() {
    let c = Color::new(3, 5, 7);
    assert_eq!(c.red, 3);
    assert_eq!(c.green, 5);
    assert_eq!(c.blue, 7);
}

#[test]
fn one_cell_world_wanders_in_place() {
    // the smallest world: the agent's only candidate cell is its own
    let mut engine = small_engine(1);
    let e = agent_at_home(wandering(WanderDirection::Stay, WanderDirection::Stay), 0, 0);
    let h = engine.add_agent(e, 0, 0).unwrap();
    engine.step();
    // the blind wander step in place succeeded and laid a full unit
    assert_eq!(
        engine.cell_at(0, 0),
        Ok(AntCellState::Empty(Pheremones { wandering: 1000, returning: 0 }))
    );
    assert_eq!(engine.occupants(0, 0).unwrap().len(), 1);
    assert!(engine.get_verify(h).is_ok());
}

#[test]
fn pheromones_stay_capped_through_many_ticks() {
    // an agent trapped on one cell keeps depositing; the cap holds
    let mut engine = small_engine(1);
    let e = agent_at_home(wandering(WanderDirection::Stay, WanderDirection::Stay), 0, 0);
    engine.add_agent(e, 0, 0).unwrap();
    let max = engine.conf.pheromone_max;
    for _ in 0..200 {
        engine.step();
        match engine.cell_at(0, 0).unwrap() {
            AntCellState::Empty(p) => {
                assert!(p.wandering <= max);
                assert!(p.returning <= max);
            },
            other => panic!("expected an empty cell, found {:?}", other),
        }
    }
}

#[test]
fn wander_state_never_settles_on_double_stay() {
    let mut rng = Prng::new(21, 22);
    let still = WanderingState { x_dir: WanderDirection::Stay, y_dir: WanderDirection::Stay };
    // a zero chance keeps both axes on Stay, forcing the re-roll every time
    for _ in 0..100 {
        assert_ne!(still.next(0, &mut rng), still);
    }
    // and from any start, with any chance, the step never lands on it
    let mut ws = WanderingState { x_dir: WanderDirection::Up, y_dir: WanderDirection::Down };
    for chance in [0u32, 425, 5000, 10000] {
        for _ in 0..50 {
            ws = ws.next(chance, &mut rng);
            assert_ne!(ws, still);
        }
    }
}
