//! Estructuras para calcular estrategias del mus: abstracciones de manos, juegos de lances y
//! partidas, y su codificación en conjuntos de información.
mod abstract_lance;
pub use abstract_lance::{AbstractJugada, AbstractGrande, AbstractChica, AbstractPares, AbstractJuego, AbstractPunto, carta_de_valor, primer_valor, ultimo_valor, abstract_grande_spec, abstract_chica_spec, abstract_pares_spec, abstract_juego_spec, abstraccion};

mod strategy;
pub use strategy::{GameType, GameConfig, StrategyConfig, HandConfig, CursorNode, CursorMove, DiscardAction, GameStateResult};

mod trainer;
pub use trainer::{Trainer, TrainerConfig, marcadores_hasta, marcadores_diagonal, total, contiene, lema_marcadores_ordenados};

mod acciones;
pub use acciones::{acciones_completas, acciones_envite_spec, canonica, indice_canonico, canonical_envite_action, full_actions, actions_envite, no_menores, retener_no_menores};

mod tablas;
pub use tablas::{BitField, BettingSequence, MusInfoSetTables, Disposicion, disposicion, tablas_validas, sigue, lema_campos_contiguos, lema_anchura_ocho, lema_cabe_en_anchura, arbol_mus_completo, lema_arbol_mus, num_combinaciones, lema_num_combinaciones, lema_num_manos_mus, LIMITE_NODOS, fila_vacia, insertar_camino, arbol_de, arbol_valido, caminos_validos, vista_nodos, anchura, bits_de, indice_mus, valor_mus, rango_desde, rango_completo, combinations_table, codigo_abstracto, codigo_jugada, creciente, rango_en_tabla, codigos, manos_mus, abstract_hands_table, vista_caminos, sequences_lance, indice_abstracto, caminos_mus, acciones_estado, caminos_envite, caminos_lance};

mod lance_game;
pub use lance_game::{HandConfiguration, ManosNormalizadas, LanceGame, VistaLanceGame, HAND_CONFIG_WIDTH, HIDDEN_ACTION_WIDTH, ACTION_WIDTH, info_publica, lema_bits_tras_accion, acciones_disponibles, es_primera, posicion, lema_posicion_unica, tras_accion, nodo_lance, codigos_manos, con_manos, repartido, ganador_lance, marcador_final, ganancia, lema_suma_cero, texto_configuracion, codigo_configuracion, jugadores_configuracion, hand_config_code, jugadas_de, con_jugada_de_pareja, parejas_normalizadas, configuracion_de, indices_pareja, normalizable, texto_mano};

mod info_set;
pub use info_set::{poner, leer, lema_poner_leer, lema_poner_otro_campo, lema_poner_fuera_del_campo, lema_poner_dos_veces, lema_potencia_desplazamiento, inicio_descartes, historial_de_lance, bits_jugadas, VistaConstructor, MusInfoSetBuilder, con_oculta, paso_mus_valido, con_paso_mus, paso_lance_valido, con_paso_lance, con_mano, con_descartes, con_jugada, con_lance, con_nodo};

mod mus_game;
pub use mus_game::{MAX_RONDAS_MUS, CardSource, VistaCartas, VistaJuegoMus, cartas_acotadas, juego_inicial, con_codigos_hasta, con_codigos_manos, partida_tras, descarte_pendiente, tras_cambio_fase, rondas_tras, lema_oculta_distingue, lema_companero_distingue, cambio_valido, forzar_fin_mus, con_reparto, con_cartas_nuevas, repartida_de_baraja, mascara, descarte_canonico, descartes_hasta, descartes_legales, sin_desbordar, acciones_partida, registro_individual, registro_individual_valido, accion_valida_dos, tras_accion_dos, nodo_partida, MusGameTwoPlayers, MusGame, MusGameTwoHands, es_segundo, segundo_con_accion, acciones_definidas, acciones_cuatro, es_primero, registro_parejas, registro_parejas_valido, accion_valida_cuatro, tras_accion_cuatro, accion_doble, partida_tras_dos_manos, registro_dos_manos, registro_dos_manos_valido, primer_jugador, accion_valida_dos_manos, tras_accion_dos_manos};

mod tantos;
pub use tantos::{dos_puntos, es_digito, sin_signo, solo_digitos, valor_digitos, valor_u8, error_formato, error_numero, tantos_de_texto, lema_valor_prefijo, parse_tantos, lema_leer_tantos_escritos};
