# emotion_core

The decision logic of a VAD (valence, arousal, dominance) emotion engine for AI
agents, verified with Verus.

`src/` holds everything of the engine that does not rest on floating point, with
contracts proved by Verus:

- `decay_schedule`: local hour, day/night phase (including nights that cross
  midnight), phase label, and which decay multiplier applies to a dimension.
- `decay`: the split of an elapsed interval into hourly steps merged into maximal
  runs of equal multiplier.
- `dimension`, `personality`, `plutchik`: the names of dimensions, OCEAN traits and
  Plutchik emotions, and the table of opposite emotions.
- `rumination`, `history`: the bounded list of active ruminations, their round
  counters, the bounded memory and stimulus histories, and the most recent
  stimuli (newest first) that the prompt reports.
- `config`: selection of the first behaviour rule whose condition holds.
- `prompt`: the text of the `<emotion_state>` block and of timestamps.
- `multi_agent`, `persistence`: agent ids from state-file names, the temporary
  save path, and when a state must be saved.

`app/` holds the floating-point model (VAD values, exponential decay, personality
modulation, memory retention, KNN classification), file I/O and the Node.js and
Python bindings; it calls `src/` for every decision listed above.
