use musolver::game::topological_order;

#[test]
fn diamante_en_orden() {
    let hijos = vec![vec![1, 2], vec![3], vec![3], vec![]];
    assert_eq!(topological_order(&hijos), vec![0, 1, 2, 3]);
}

#[test]
fn aristas_repetidas_cuentan_una_vez_por_padre() {
    let hijos = vec![vec![1, 1, 2], vec![2], vec![]];
    assert_eq!(topological_order(&hijos), vec![0, 1, 2]);
}

#[test]
fn cada_nodo_va_despues_de_sus_padres() {
    let hijos = vec![vec![3, 1], vec![2], vec![4], vec![2, 4], vec![]];
    let orden = topological_order(&hijos);
    assert_eq!(orden, vec![0, 3, 1, 2, 4]);
    for (padre, hs) in hijos.iter().enumerate() {
        for h in hs {
            let ip = orden.iter().position(|x| *x == padre).unwrap();
            let ih = orden.iter().position(|x| x == h).unwrap();
            assert!(ip < ih);
        }
    }
}

#[test]
fn nodos_sin_padres_o_en_ciclos_no_entran() {
    // El 3 no tiene padres y el 1 y el 2 forman un ciclo alcanzable desde la raíz.
    let hijos = vec![vec![1], vec![2], vec![1], vec![]];
    assert_eq!(topological_order(&hijos), vec![0]);
}
