# musolver

Herramientas para calcular estrategias del mus con CFR (minimización del arrepentimiento
contrafactual).

- `src/` es la biblioteca verificada con Verus:
  - `mus`: cartas, manos, barajas, lances, partidas y los iteradores de repartos, con pesos
    enteros (número de maneras de repartir cada mano y total de maneras).
  - `solver`: abstracciones de manos, tablas de codificación, constructor de conjuntos de
    información, juegos de lance y de partida completa, orden de entrenamiento de los marcadores
    y lectura del marcador inicial.
  - `game`: tipos de nodo, métodos de CFR, árboles de acciones y el orden topológico de los
    nodos de un grafo.
  - `colecciones`: las llamadas a `arrayvec`, `itertools`, `num-integer` y `rand`, cada una con
    su contrato.
- `app/` es el programa: argumentos de la línea de órdenes, el algoritmo CFR y sus variantes,
  que trabajan en coma flotante, el grafo del juego, el algoritmo de Lemke-Howson y la
  exportación de las estrategias en JSON.
- `tests/` prueba la biblioteca desde fuera.

Para calcular la estrategia de la partida completa:

```bash
musolver --iter 1000000 --method fsi-cfr
```

Métodos: `cfr`, `cfr-plus`, `chance-sampling` (por defecto), `external-sampling` y `fsi-cfr`.
Con `--lance <LANCE>` se calcula la estrategia de un lance aislado, con `--abstract-game` la de
la versión abstracta del juego y con `--tantos 25:14` se empieza desde ese marcador.
