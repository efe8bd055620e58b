Kalaxia
=======

The server of Kalaxia, a multiplayer strategy game taking place in space,
split in two:

* `src/` is the `kalaxia` library, verified with Verus: the rules of the
  game. Fleets and their squadrons, battle rounds and one-on-one fights,
  conquests, arrivals after a journey, ship production and the keys that
  bind ships in production to a fleet, buildings, lobbies, players and
  their money, incomes, victory points and victory conditions, the home
  zones of the factions, rankings, and the server's errors. Each public
  function states in its contract what it returns or changes.
* `app/` is the program around it: the HTTP routes and websockets
  (actix-web), the database (sqlx on PostgreSQL), the timers of each game,
  the authentication tokens (jsonwebtoken), the Graylog logger (gelf), and
  what is computed with floating-point numbers (distances, travel and
  construction times, the damage of a volley, the progress of a conquest).
* `tests/` runs the library on concrete values.
