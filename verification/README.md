# redis_postgres_migrator

Moves the data of a Habitat 0.12 builder (kept in Redis) into the Postgres
data stores of a current Habitat builder: accounts, origins, the origins of
accounts, invitations, secret keys, packages and public origin keys.

* `src/` is the verified library. `redis_extraction` reads entity ids out of
  Redis key names; `redis_lib` and `postgres_lib` shape the records and
  requests of the two stores; `migrators` holds one state machine per kind of
  record. A machine never touches a store: each step returns the next
  `Action`, and the caller hands back what the store answered as a `Reply`.
  Each machine states its transitions exactly and proves that it only writes
  what Postgres said was missing, that an ended run stays ended, and that
  every run ends; and, for a whole run against stores that answer
  faithfully, what Postgres holds when the run finishes.
* `app/` is the program: it reads the Redis address from the command line,
  performs the actions against Redis and Postgres, and stops with a message
  that names the reason when a migration stops.
* `tests/` drives the migrators against both stores held in memory.
