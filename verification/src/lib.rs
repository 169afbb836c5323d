//! A verified core for a grid-based snake game: the snake's body and
//! movement, food placement, collision detection and the timing-driven
//! state machine (playing, game over, restart). A host feeds the game
//! direction intents and time deltas and draws what `render_state`
//! reports; randomness comes from a seedable generator behind a small
//! trusted boundary.

pub mod game;
pub mod rng;
pub mod snake;
