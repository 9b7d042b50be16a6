# asteroid_shooter

The rules of a 3D space-combat game (a player ship, an enemy freighter that
calls in UFO reinforcements, and a field of asteroids that break apart),
written as a library verified with Verus, plus the Bevy program that runs it.

- `src/` — the verified rules:
  - `health` — hit points, damage, asteroid-on-asteroid bumps;
  - `collisions` — what each kind of contact does (crashes, laser strikes,
    UFOs bumping asteroids, asteroids colliding), and which UFOs are destroyed;
  - `enemy` — the enemy's reinforcement checkpoints and wave formations;
  - `asteroids` — how destroyed asteroids break up, the fragments each break-up
    makes, and the random layout of new asteroids;
  - `lineage` — a model of the asteroid field over a whole run, with the law
    that each asteroid gives rise to at most two fragments and fragments to none;
  - `state` — the screens of the game and how requests move between them;
  - `player` — flight controls and the ship's paint job;
  - `hud` — the HUD texts;
  - `debug` — the collider-outline switch.
- `app/` — the Bevy/avian3d program: spawning, rendering, physics, input, and
  the motion and aiming code, which works on floating-point geometry.
- `tests/` — tests of the library on concrete values.
