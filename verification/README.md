# specter

A chess engine core whose behaviour is stated in Verus contracts and proved.

- `src/board`: bitboards, squares, pieces, Zobrist keys, positions with make/unmake
  (unmaking a made move gives back the position exactly; making a well-formed move keeps
  the bitboards consistent), FEN reading and writing.
- `src/movegen`: attack sets (walked along the rays, and magic-bitboard tables whose
  lookups are proved equal to them), pseudo-legal and legal move generation (a legal move never
  leaves or passes the king through check), perft.
- `src/eval`: packed middlegame/endgame scores, game phase and taper, material, pawn
  structure, king safety, mobility, threats and the NNUE accumulator and network.
- `src/tt`, `src/history`: transposition table, killer moves and history tables.
- `src/search`: principal variation search with quiescence search, null-move pruning,
  singular extensions, late move reductions and move ordering; iterative deepening with
  aspiration windows; time management; search results and their UCI text. The static
  evaluation and the late-move-reduction table are supplied by the caller.
- `src/uci`, `src/openingbook`, `src/datagen` (records and self-play), `src/personality`, `src/syzygy`,
  `src/variants`: the UCI command parser and session, opening books (Polyglot and the
  built-in lines), training records, playing styles and levels, tablebase settings.
- `app/`: the UCI loop and the other parts that do I/O or use floating point.
