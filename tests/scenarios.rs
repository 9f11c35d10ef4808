use dspcalc::calc::{Formulation, Problem, Solution};
use dspcalc::error::{DspCalError, SolverFailure};
use dspcalc::item::{Resource, UNIT};
use dspcalc::lp::LinearProgram;
use dspcalc::recipe::{Recipe, RecipeFmtInfo};
use dspcalc::translator::from_clarabel_solution;
use good_lp::solvers::clarabel::clarabel;
use good_lp::{variable, Expression, ProblemVariables, ResolutionError, Solution as _, SolverModel};

/// Solves the program with clarabel and returns each variable's value in fixed point.
fn run_solver(lp: &LinearProgram) -> Result<Vec<i64>, SolverFailure> {
    let mut vars = ProblemVariables::new();
    let handles: Vec<_> = (0..lp.variables).map(|_| vars.add(variable().min(0.0))).collect();
    let mut objective = Expression::from(0.0);
    for t in &lp.objective {
        objective += (t.num as f64 / t.den as f64 / UNIT as f64) * handles[t.variable];
    }
    let mut model = vars.minimise(objective).using(clarabel);
    for c in &lp.constraints {
        let mut e = Expression::from(0.0);
        for t in &c.produced {
            e += (t.num as f64 / t.den as f64) * handles[t.variable];
        }
        for t in &c.consumed {
            e -= (t.num as f64 / t.den as f64) * handles[t.variable];
        }
        model.add_constraint(e.geq(c.demand as f64 / UNIT as f64));
    }
    match model.solve() {
        Ok(s) => Ok(handles.iter().map(|h| (s.value(*h) * UNIT as f64).ceil() as i64).collect()),
        Err(ResolutionError::Infeasible) => Err(SolverFailure::Infeasible),
        Err(ResolutionError::Unbounded) => Err(SolverFailure::Unbounded),
        Err(e) => Err(SolverFailure::Other(e.to_string())),
    }
}

fn solve(problem: &Problem) -> Result<Vec<Solution>, DspCalError> {
    let Formulation { bindings, program } = problem.formulate()?;
    let values = run_solver(&program).map_err(DspCalError::LpSolverError)?;
    from_clarabel_solution(&bindings, &values)
}

fn recipe(items: Vec<Resource>, results: Vec<Resource>, time: i64) -> Recipe {
    Recipe::new(items, results, time, RecipeFmtInfo::default()).unwrap()
}

fn good(id: i16, num: i64) -> Resource {
    Resource::from_item_level(id, 0, num)
}

fn assert_close(actual: i64, expected: i64) {
    let tolerance = UNIT / 10_000;
    assert!(
        (actual - expected).abs() <= tolerance,
        "expected {expected}, got {actual}"
    );
}

const G: i16 = 1001;
const M: i16 = 1002;
const F: i16 = 1003;

#[test]
fn scenario_single_recipe_meets_demand() {
    let problem = Problem {
        recipes: vec![recipe(vec![], vec![good(G, UNIT)], 2 * UNIT)],
        needs: vec![good(G, 50 * UNIT)],
        weights: vec![UNIT],
    };
    let solutions = solve(&problem).unwrap();
    assert_eq!(solutions.len(), 1);
    assert_close(solutions[0].num, 100 * UNIT);
    assert_eq!(solutions[0].recipe.time, 2 * UNIT);
}

#[test]
fn scenario_cheaper_recipe_wins() {
    let r1 = recipe(vec![], vec![good(G, UNIT)], UNIT);
    let mut r2 = recipe(vec![], vec![good(G, UNIT)], UNIT);
    r2.info.name = "expensive".to_string();
    let problem = Problem {
        recipes: vec![r1, r2],
        needs: vec![good(G, 10 * UNIT)],
        weights: vec![UNIT, 2 * UNIT],
    };
    let solutions = solve(&problem).unwrap();
    assert_eq!(solutions.len(), 1);
    assert_eq!(solutions[0].recipe.info.name, "Unknown Building");
    assert_close(solutions[0].num, 10 * UNIT);
}

#[test]
fn scenario_intermediate_chain() {
    let r1 = recipe(vec![], vec![good(M, 2 * UNIT)], UNIT);
    let r2 = recipe(vec![good(M, UNIT)], vec![good(F, UNIT)], UNIT);
    let problem = Problem {
        recipes: vec![r1, r2],
        needs: vec![good(F, 5 * UNIT)],
        weights: vec![UNIT, UNIT],
    };
    let solutions = solve(&problem).unwrap();
    assert_eq!(solutions.len(), 2);
    let producer = solutions.iter().find(|s| s.recipe.items.is_empty()).unwrap();
    let consumer = solutions.iter().find(|s| !s.recipe.items.is_empty()).unwrap();
    assert_close(consumer.num, 5 * UNIT);
    assert_close(producer.num, 5 * UNIT / 2);
}

#[test]
fn scenario_unknown_demand_is_infeasible() {
    let problem = Problem {
        recipes: vec![recipe(vec![], vec![good(G, UNIT)], UNIT)],
        needs: vec![good(4242, 5 * UNIT)],
        weights: vec![UNIT],
    };
    let formulation = problem.formulate().unwrap();
    let last = formulation.program.constraints.last().unwrap();
    assert!(last.produced.is_empty() && last.consumed.is_empty());
    assert_eq!(last.demand, 5 * UNIT);
    match solve(&problem) {
        Err(DspCalError::LpSolverError(SolverFailure::Infeasible)) => {}
        other => panic!("expected an infeasible solver result, got {:?}", other.err()),
    }
}

#[test]
fn scenario_mismatched_weights() {
    let r = || recipe(vec![], vec![good(G, UNIT)], UNIT);
    let problem = Problem {
        recipes: vec![r(), r(), r()],
        needs: vec![good(G, UNIT)],
        weights: vec![UNIT, UNIT],
    };
    match problem.formulate() {
        Err(DspCalError::MismatchedRecipeWeights(3, 2)) => {}
        other => panic!("expected a validation error, got {:?}", other.err()),
    }
    assert!(matches!(solve(&problem), Err(DspCalError::MismatchedRecipeWeights(3, 2))));
}

#[test]
fn solved_usages_cover_every_balance() {
    let r1 = recipe(vec![], vec![good(M, 2 * UNIT)], UNIT);
    let r2 = recipe(vec![good(M, UNIT)], vec![good(F, UNIT), good(G, UNIT / 2)], 3 * UNIT);
    let problem = Problem {
        recipes: vec![r1, r2],
        needs: vec![good(F, 7 * UNIT)],
        weights: vec![UNIT, UNIT],
    };
    let Formulation { bindings, program } = problem.formulate().unwrap();
    let values = run_solver(&program).unwrap();
    for c in &program.constraints {
        let net: f64 = c.produced.iter().map(|t| t.num as f64 / t.den as f64 * values[t.variable] as f64).sum::<f64>()
            - c.consumed.iter().map(|t| t.num as f64 / t.den as f64 * values[t.variable] as f64).sum::<f64>();
        assert!(net >= c.demand as f64 - 1e-3 * UNIT as f64);
    }
    let solutions = from_clarabel_solution(&bindings, &values).unwrap();
    assert!(solutions.iter().all(|s| s.num > dspcalc::translator::USAGE_THRESHOLD));
}

#[test]
fn solving_twice_gives_the_same_cost() {
    let make = || Problem {
        recipes: vec![
            recipe(vec![], vec![good(M, 2 * UNIT)], UNIT),
            recipe(vec![good(M, UNIT)], vec![good(F, UNIT)], UNIT),
        ],
        needs: vec![good(F, 5 * UNIT)],
        weights: vec![UNIT, 3 * UNIT],
    };
    let cost = |s: &[Solution]| -> i128 { s.iter().map(|x| x.num as i128).sum() };
    let a = solve(&make()).unwrap();
    let b = solve(&make()).unwrap();
    assert!((cost(&a) - cost(&b)).abs() <= (UNIT / 10_000) as i128);
}
