# plex_player

The decision logic of a television media player, verified with Verus.

* `src/abr` is a plant that adaptive-bitrate policies are run against: queue geometry, a measured
  calibration table, the cost of trying another rung, and the closed loop in virtual time. Its laws
  hold of every run, whatever the policy decides.
* `src/devcaps` turns the platform's codec table into what the playback stack may claim.
* `src/plex` builds the requests to the server's transcoder, the capability profile that goes with
  them, and the policy of the link that they go over.
* `src/text.rs` and `src/arith.rs` hold what the others share.

`app` reads files, sends requests and converts floating-point numbers.
