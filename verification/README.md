# owl_tracker

A terminal tracker for the Overwatch League: the live match, the next match
on the schedule, a team's record and the league's rankings, read from the
league's web API.

The library (`src/`) is verified with Verus. It holds everything the tracker
decides and shows:

- `text`: string equality and order, decimal numerals;
- `date`: readable dates from the schedule's timestamps;
- `menu`: reading a menu choice from a typed line, and the menu's answers;
- `rankings`: listing the rankings and finding a team's rank;
- `team`: which team a number names, where its record is, how it reads;
- `live`: the report on the live match and on the day's next match;
- `schedule`: the stage under way and its next match;
- `data`: JSON documents, read with the `json` crate, and what they show
  along paths;
- `league`: the records that the tracker reads from the league's documents.

`app/` is the program around it: the menu loop, the console, the requests to
the API (`reqwest`), and the countdown before a match, which is computed on
floating-point numbers.
