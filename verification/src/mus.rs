//! Funcionalidad básica del juego del mus: cartas, manos, barajas, lances y partidas.
mod carta;
pub use carta::{Carta, lema_caracter_carta};

mod mus_error;
pub use mus_error::MusError;

mod mano;
pub use mano::{Mano, ordenada, ordenar_cartas, puntos_carta, suma_puntos, figuras, mano_ordenada_de, vistas, descartes_antes, reemplazo, descartadas_de, texto_valido, primer_error, lema_texto_mano};

mod lance;
pub use lance::{Juego, Pares, Jugada, Lance, bit, conteo, mascara_hasta, valores_hasta, mascara, pares_spec, juego_spec, valor_grande_spec, valor_chica_spec, rango_pares, rango_juego, fuerza_spec, orden_de, mano_comparable, tiene_jugada, alguna_con_jugada, tantos_mano_spec, turno_inicial_spec, hay_lance_spec, se_juega_spec, Apuesta, Turno, EstadoLance, jugador_de, rango_apuesta, apuesta_acotada, de_paridad, turnos_pareja, pareja_inicial, turno_inicial_lance, bote_tras_envite, participa, activos_hasta, activos, tantos_pareja, es_mejor_mano, manos_de_partida, mejor_indice, lema_mejor_mano_unica, lema_turno_cuatro_manos, lema_grande_chica_se_juegan, lema_orden_juego, lema_orden_pares, lema_orden_punto, lema_orden_grande_chica, tras_acciones, ultima_aceptada, lema_tantos_tras_acciones, lema_tantos_pareja_acotados, lema_comparacion_inversa};

mod partida_mus;
pub use partida_mus::{Accion, FaseEnvites, FaseMus, PartidaMus, SubfaseMus, FasePartida, ModeloMus, ModeloPartida, manos_completas, sin_descartes, ResultadoLance, DosJugadores, CuatroJugadores, ModalidadMus, MAX_TANTOS, apuesta_maxima_de, resolucion, resultado_valido, ModeloEnvites, num_descartes, codigo_descarte, rango_accion, max_accion, lema_max_accion_conmutativa, lema_resultado_lance, lema_anotado, texto_accion, digito, digitos, escribir_numero};

mod baraja;
pub use baraja::{Baraja, ModeloBaraja, frecuencias_mus, veces, baraja_mus_completa, descarte_de_baraja};

mod carta_iter;
pub use carta_iter::{CartaIter, cabe_en_u64, lema_binom_cabe, lema_binom_monotono, CombinationsWithReplacementProb, ModeloCombinaciones, DistribucionCartaIter, ModeloDistribucion, RepartoDescarteMusIter, frecuencias, cartas_de_indices, distribucion_restante, en_rango, potencia2, enteros, veces_en, factible, peso_hasta, peso, suma_hasta, suma, lista_desde, combinaciones_factibles, restantes, vista_lista, lema_lista_factible, posicion_carta, indices_mano, probabilidad_mano_spec, probabilidad_dos_manos_spec};

mod reparto_doble;
pub use reparto_doble::{probabilidad_mano, probabilidad_dos_manos, valores_distintos, lema_probabilidad_mano_iterador, lema_probabilidad_dos_manos_iterador, RepartoMusIter, RepartoCuatro, repartos_tras, repartos_cuatro, todos_los_repartos_mus, RepartoMusDosJugadoresIter, DistribucionDobleCartaIter, ModeloDobleDistribucion, frecuencias_iniciales, ParDeManos, suma_veces, lema_suma_tras_combinacion, lema_quedan_pares, como_usize, segundas_manos, pares_de_manos, todos_los_pares, vista_pares};
