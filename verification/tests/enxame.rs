use metaheuristc_pso::movimento::{div_piso, inercia, mover_coordenada, UNIDADE};
use metaheuristc_pso::problema::{
    binarizar, calcular_fitness, Ingrediente, ProblemaEnsopado, ESCALA,
};
use metaheuristc_pso::pso::{
    avaliar_particula, coeficiente_social, concluir, construir_solucao, gerar_posicao_de_solucao,
    gerar_solucao_valida, gerar_velocidade, inicializar_enxame, iterar_enxame, mover_particula,
    posicao_nula, solucao_vazia, solve_pso, solve_pso_com, Configuracao, Particula, ALTO_MIN,
    BAIXO_MAX, VELOCIDADE_INICIAL,
};

fn problema_de(sabores: &[u64], pesos: &[u64], pares: &[(usize, usize)], cap: u64) -> ProblemaEnsopado {
    let e = ESCALA as u64;
    let mut ingredientes = Vec::new();
    for i in 0..sabores.len() {
        ingredientes.push(Ingrediente { sabor: sabores[i] * e, peso: pesos[i] * e });
    }
    ProblemaEnsopado { ingredientes, pares_incompativeis: pares.to_vec(), peso_max: cap * e }
}

#[test]
fn scenario_no_exclusions_reaches_flavor_25() {
    let p = problema_de(&[10, 20, 5], &[2, 3, 1], &[], 4);
    assert!(p.valido());
    let (sol, sabor, inicial, fit_inicial) = solve_pso(&p);
    assert_eq!(sol, vec![false, true, true]);
    assert_eq!(sabor, 25 * ESCALA);
    assert!(p.eh_viavel(&inicial));
    assert!(fit_inicial <= sabor);
    assert_eq!(fit_inicial as u64, p.somar(&inicial).1);
}

#[test]
fn scenario_exclusion_never_reports_the_pair() {
    let p = problema_de(&[10, 20, 5], &[2, 3, 1], &[(0, 1)], 4);
    assert!(p.valido());
    assert!(!p.eh_viavel(&vec![true, true, false]));
    for _ in 0..5 {
        let (sol, sabor, inicial, _) = solve_pso(&p);
        assert!(!(sol[0] && sol[1]));
        assert!(!(inicial[0] && inicial[1]));
        assert_eq!(sol, vec![false, true, true]);
        assert_eq!(sabor, 25 * ESCALA);
    }
}

#[test]
fn scenario_capacity_zero_returns_the_empty_selection() {
    let p = problema_de(&[10, 20, 5], &[2, 3, 1], &[], 0);
    assert!(p.valido());
    let (sol, sabor, inicial, fit_inicial) = solve_pso(&p);
    assert_eq!(sol, vec![false, false, false]);
    assert_eq!(sabor, 0);
    assert_eq!(inicial, vec![false, false, false]);
    assert_eq!(fit_inicial, 0);
}

#[test]
fn scenario_stagnation_limit_zero_repels_and_best_never_falls() {
    let p = problema_de(&[10, 20, 5], &[2, 3, 1], &[], 4);
    let mut cfg = Configuracao::padrao();
    cfg.limite_estagnacao = 0;
    cfg.num_particulas = 20;
    cfg.num_iteracoes = 12;
    assert!(cfg.eh_valida());
    let mut rng = rand::thread_rng();
    let (mut enxame, _inicial, fit_inicial) = inicializar_enxame(&p, &cfg, &mut rng);
    assert_eq!(enxame.melhor_fitness_global, fit_inicial);
    let mut sem = 0usize;
    let mut repulsoes = 0;
    for iter in 0..cfg.num_iteracoes {
        let antes = enxame.melhor_fitness_global;
        let pessoais: Vec<i64> = enxame.particulas.iter().map(|q| q.melhor_fitness).collect();
        if coeficiente_social(cfg.c2, sem, cfg.limite_estagnacao).0 == -cfg.c2 {
            repulsoes += 1;
        }
        sem = iterar_enxame(&mut enxame, &p, &cfg, iter, sem, &mut rng);
        assert!(enxame.melhor_fitness_global >= antes);
        for (q, f) in enxame.particulas.iter().zip(pessoais.iter()) {
            assert!(q.melhor_fitness >= *f);
            assert!(q.posicao.iter().all(|&x| 0 <= x && x <= UNIDADE));
            assert!(q.velocidade.iter().all(|&v| -cfg.v_max <= v && v <= cfg.v_max));
        }
        assert_eq!(
            enxame.melhor_fitness_global,
            calcular_fitness(&enxame.melhor_posicao_global, &p, cfg.limiar)
        );
    }
    assert!(repulsoes >= 1);
    let (sol, sabor, _, fi) = solve_pso_com(&p, &cfg);
    assert!(p.eh_viavel(&sol));
    assert!(sabor >= fi);
}

#[test]
fn run_without_particles_returns_the_empty_selection() {
    let p = problema_de(&[10, 20, 5], &[2, 3, 1], &[], 4);
    let mut cfg = Configuracao::padrao();
    cfg.num_particulas = 0;
    cfg.num_iteracoes = 3;
    let (sol, sabor, inicial, fi) = solve_pso_com(&p, &cfg);
    assert_eq!(sol, vec![false, false, false]);
    assert_eq!(sabor, 0);
    assert_eq!(inicial, Vec::<bool>::new());
    assert_eq!(fi, 0);
}

#[test]
fn run_without_iterations_returns_the_best_seed() {
    let p = problema_de(&[10, 20, 5], &[2, 3, 1], &[], 4);
    let mut cfg = Configuracao::padrao();
    cfg.num_iteracoes = 0;
    let (sol, sabor, inicial, fi) = solve_pso_com(&p, &cfg);
    assert_eq!(sol, inicial);
    assert_eq!(sabor, fi);
}

#[test]
fn seeds_are_always_feasible() {
    let p = problema_de(&[7, 3, 9, 4, 6, 8], &[3, 1, 4, 2, 3, 5], &[(0, 2), (1, 4), (3, 5)], 7);
    assert!(p.valido());
    let mut rng = rand::thread_rng();
    let mut distintas = std::collections::HashSet::new();
    for _ in 0..500 {
        let sol = gerar_solucao_valida(&p, &mut rng);
        assert_eq!(sol.len(), 6);
        assert!(p.eh_viavel(&sol));
        assert!(!(sol[0] && sol[2]) && !(sol[1] && sol[4]) && !(sol[3] && sol[5]));
        assert!(p.somar(&sol).0 <= p.peso_max);
        distintas.insert(sol);
    }
    assert!(distintas.len() > 1);
}

#[test]
fn construction_follows_the_order_given() {
    let p = problema_de(&[10, 20, 5], &[2, 3, 1], &[], 4);
    assert_eq!(construir_solucao(&p, &vec![0, 1, 2]), vec![true, false, true]);
    assert_eq!(construir_solucao(&p, &vec![1, 0, 2]), vec![false, true, true]);
    assert_eq!(construir_solucao(&p, &vec![2, 1, 0]), vec![false, true, true]);
    assert_eq!(construir_solucao(&p, &vec![]), vec![false, false, false]);
    assert_eq!(construir_solucao(&p, &vec![9, 0, 0]), vec![true, false, false]);
    let q = problema_de(&[10, 20, 5], &[2, 3, 1], &[(2, 0)], 100);
    assert_eq!(construir_solucao(&q, &vec![0, 1, 2]), vec![true, true, false]);
    assert_eq!(construir_solucao(&q, &vec![2, 1, 0]), vec![false, true, true]);
}

#[test]
fn encoding_thresholds_back_to_the_selection() {
    let mut rng = rand::thread_rng();
    let sol = vec![true, false, false, true, true, false, true];
    for _ in 0..200 {
        let pos = gerar_posicao_de_solucao(&sol, &mut rng);
        assert_eq!(pos.len(), sol.len());
        for (x, b) in pos.iter().zip(sol.iter()) {
            if *b {
                assert!(ALTO_MIN < *x && *x < UNIDADE);
            } else {
                assert!(0 < *x && *x < BAIXO_MAX);
            }
        }
        assert_eq!(binarizar(&pos, 500_000), sol);
        assert_eq!(binarizar(&pos, BAIXO_MAX - 1), sol);
        assert_eq!(binarizar(&pos, ALTO_MIN), sol);
    }
}

#[test]
fn initial_velocity_stays_within_a_tenth() {
    let mut rng = rand::thread_rng();
    let v = gerar_velocidade(300, &mut rng);
    assert_eq!(v.len(), 300);
    assert!(v.iter().all(|&x| -VELOCIDADE_INICIAL <= x && x < VELOCIDADE_INICIAL));
    assert!(v.iter().any(|&x| x != v[0]));
}

#[test]
fn new_particle_has_unset_memory() {
    let p = Particula::new(40);
    assert_eq!(p.posicao.len(), 40);
    assert_eq!(p.velocidade.len(), 40);
    assert_eq!(p.melhor_posicao, vec![0i64; 40]);
    assert_eq!(p.melhor_fitness, -ESCALA);
    assert!(p.posicao.iter().all(|&x| 0 <= x && x < UNIDADE));
    assert!(p.velocidade.iter().all(|&x| -VELOCIDADE_INICIAL <= x && x < VELOCIDADE_INICIAL));
    assert!(p.posicao.iter().any(|&x| x != p.posicao[0]));
}

#[test]
fn empty_vectors_have_the_length_asked() {
    assert_eq!(solucao_vazia(3), vec![false, false, false]);
    assert_eq!(posicao_nula(2), vec![0i64, 0]);
    assert_eq!(solucao_vazia(0), Vec::<bool>::new());
}

#[test]
fn default_configuration_has_the_documented_values() {
    let c = Configuracao::padrao();
    assert_eq!(c.num_particulas, 100);
    assert_eq!(c.num_iteracoes, 50);
    assert_eq!(c.w_max, 900_000);
    assert_eq!(c.w_min, 400_000);
    assert_eq!(c.c1, 2_000_000);
    assert_eq!(c.c2, 2_000_000);
    assert_eq!(c.v_max, 1_000_000);
    assert_eq!(c.limiar, 500_000);
    assert_eq!(c.limite_estagnacao, 15);
    assert!(c.eh_valida());
}

#[test]
fn configuration_outside_the_bands_is_invalid() {
    let mut c = Configuracao::padrao();
    c.limiar = ALTO_MIN + 1;
    assert!(!c.eh_valida());
    c.limiar = ALTO_MIN;
    assert!(c.eh_valida());
    c.limiar = BAIXO_MAX - 2;
    assert!(!c.eh_valida());
    c.limiar = BAIXO_MAX - 1;
    assert!(c.eh_valida());
    c.v_max = -1;
    assert!(!c.eh_valida());
    c.v_max = 0;
    c.c1 = 1_000_000_001;
    assert!(!c.eh_valida());
}

#[test]
fn social_coefficient_flips_past_the_limit() {
    assert_eq!(coeficiente_social(2_000_000, 15, 15), (2_000_000, 15));
    assert_eq!(coeficiente_social(2_000_000, 16, 15), (-2_000_000, 16));
    assert_eq!(coeficiente_social(2_000_000, 20, 15), (-2_000_000, 20));
    assert_eq!(coeficiente_social(2_000_000, 21, 15), (-2_000_000, 0));
    assert_eq!(coeficiente_social(2_000_000, 0, 0), (2_000_000, 0));
    assert_eq!(coeficiente_social(2_000_000, 1, 0), (-2_000_000, 1));
    assert_eq!(coeficiente_social(7, 3, usize::MAX), (7, 3));
}

#[test]
fn inertia_decays_linearly() {
    assert_eq!(inercia(900_000, 400_000, 0, 50), 900_000);
    assert_eq!(inercia(900_000, 400_000, 25, 50), 650_000);
    assert_eq!(inercia(900_000, 400_000, 49, 50), 410_000);
    assert_eq!(inercia(900_000, 400_000, 1, 3), 733_334);
    assert_eq!(inercia(400_000, 900_000, 1, 3), 566_667);
}

#[test]
fn floor_division_rounds_down() {
    assert_eq!(div_piso(7, 2), 3);
    assert_eq!(div_piso(-7, 2), -4);
    assert_eq!(div_piso(-8, 2), -4);
    assert_eq!(div_piso(-1, 1_000_000), -1);
    assert_eq!(div_piso(0, 5), 0);
}

#[test]
fn coordinate_move_follows_the_formula() {
    let r = mover_coordenada(
        900_000, 2_000_000, 2_000_000, 1_000_000, 100_000, 500_000, 800_000, 200_000, 500_000,
        250_000,
    );
    assert_eq!(r, (240_000, 740_000));
    let s = mover_coordenada(
        900_000, 2_000_000, -2_000_000, 1_000_000, 100_000, 500_000, 800_000, 200_000, 500_000,
        250_000,
    );
    assert_eq!(s, (540_000, 1_000_000));
}

#[test]
fn coordinate_move_is_capped() {
    let r = mover_coordenada(
        900_000, 2_000_000, 2_000_000, 1_000_000, 1_000_000, 0, 1_000_000, 1_000_000, 999_999,
        999_999,
    );
    assert_eq!(r, (1_000_000, 1_000_000));
    let s = mover_coordenada(
        900_000, 2_000_000, 2_000_000, 300_000, -300_000, 100_000, 0, 0, 999_999, 999_999,
    );
    assert_eq!(s, (-300_000, 0));
    let t = mover_coordenada(900_000, 2_000_000, 2_000_000, 1_000_000, -1, 5, 5, 5, 1, 1);
    assert_eq!(t, (-1, 4));
}

#[test]
fn particle_move_keeps_the_bounds_and_the_memory() {
    let cfg = Configuracao::padrao();
    let mut rng = rand::thread_rng();
    let mut p = Particula::new(50);
    let global = vec![850_000i64; 50];
    let antes = p.posicao.clone();
    for _ in 0..20 {
        mover_particula(&mut p, &global, &cfg, 900_000, 2_000_000, &mut rng);
        assert!(p.posicao.iter().all(|&x| 0 <= x && x <= UNIDADE));
        assert!(p.velocidade.iter().all(|&v| -cfg.v_max <= v && v <= cfg.v_max));
        assert_eq!(p.melhor_posicao, vec![0i64; 50]);
        assert_eq!(p.melhor_fitness, -ESCALA);
    }
    assert!(p.posicao != antes);
}

#[test]
fn evaluation_raises_both_memories() {
    let prob = problema_de(&[10, 20, 5], &[2, 3, 1], &[], 4);
    let cfg = Configuracao::padrao();
    let mut rng = rand::thread_rng();
    let mut p = Particula {
        posicao: vec![100_000, 900_000, 900_000],
        velocidade: vec![0, 0, 0],
        melhor_posicao: vec![900_000, 100_000, 100_000],
        melhor_fitness: 10 * ESCALA,
    };
    let mut gpos = vec![900_000i64, 100_000, 900_000];
    let mut gfit = 15 * ESCALA;
    avaliar_particula(&mut p, &mut gpos, &mut gfit, &prob, &cfg, &mut rng);
    assert_eq!(p.posicao, vec![100_000, 900_000, 900_000]);
    assert_eq!(p.melhor_fitness, 25 * ESCALA);
    assert_eq!(gfit, 25 * ESCALA);
    assert_eq!(binarizar(&gpos, cfg.limiar), vec![false, true, true]);
    assert_eq!(binarizar(&p.melhor_posicao, cfg.limiar), vec![false, true, true]);
}

#[test]
fn evaluation_on_a_tie_climbs_first() {
    let prob = problema_de(&[10, 20, 5], &[2, 3, 1], &[], 4);
    let cfg = Configuracao::padrao();
    let mut rng = rand::thread_rng();
    let mut p = Particula {
        posicao: vec![100_000, 100_000, 900_000],
        velocidade: vec![0, 0, 0],
        melhor_posicao: vec![100_000, 100_000, 900_000],
        melhor_fitness: 5 * ESCALA,
    };
    let mut gpos = vec![100_000i64, 100_000, 900_000];
    let mut gfit = 5 * ESCALA;
    avaliar_particula(&mut p, &mut gpos, &mut gfit, &prob, &cfg, &mut rng);
    assert_eq!(binarizar(&p.posicao, cfg.limiar), vec![false, true, true]);
    assert_eq!(p.melhor_fitness, 25 * ESCALA);
    assert_eq!(gfit, 25 * ESCALA);
    assert_eq!(binarizar(&gpos, cfg.limiar), vec![false, true, true]);
}

#[test]
fn evaluation_below_both_memories_changes_neither() {
    let prob = problema_de(&[10, 20, 5], &[2, 3, 1], &[], 4);
    let cfg = Configuracao::padrao();
    let mut rng = rand::thread_rng();
    let mut p = Particula {
        posicao: vec![100_000, 100_000, 900_000],
        velocidade: vec![1, 2, 3],
        melhor_posicao: vec![900_000, 100_000, 900_000],
        melhor_fitness: 15 * ESCALA,
    };
    let mut gpos = vec![100_000i64, 900_000, 900_000];
    let mut gfit = 25 * ESCALA;
    avaliar_particula(&mut p, &mut gpos, &mut gfit, &prob, &cfg, &mut rng);
    assert_eq!(p.posicao, vec![100_000, 100_000, 900_000]);
    assert_eq!(p.velocidade, vec![1, 2, 3]);
    assert_eq!(p.melhor_posicao, vec![900_000, 100_000, 900_000]);
    assert_eq!(p.melhor_fitness, 15 * ESCALA);
    assert_eq!(gpos, vec![100_000, 900_000, 900_000]);
    assert_eq!(gfit, 25 * ESCALA);
}

#[test]
fn conclusion_keeps_a_feasible_best() {
    let p = problema_de(&[10, 20, 5], &[2, 3, 1], &[], 4);
    let r = concluir(&p, 500_000, &vec![100_000, 900_000, 700_000], vec![true, false, true], 15 * ESCALA);
    assert_eq!(r, (vec![false, true, true], 25 * ESCALA, vec![true, false, true], 15 * ESCALA));
}

#[test]
fn conclusion_replaces_an_infeasible_best_by_the_empty_selection() {
    let p = problema_de(&[10, 20, 5], &[2, 3, 1], &[], 4);
    let r = concluir(&p, 500_000, &vec![900_000, 900_000, 0], vec![true, false, true], 15 * ESCALA);
    assert_eq!(r, (vec![false, false, false], 0, vec![false, false, false], 0));
    let q = problema_de(&[10, 20, 5], &[2, 3, 1], &[(1, 2)], 100);
    let s = concluir(&q, 500_000, &vec![0, 900_000, 900_000], vec![true, false, true], 15 * ESCALA);
    assert_eq!(s, (vec![false, false, false], 0, vec![false, false, false], 0));
}
