# political_capital

The rules of a chat bot that runs a small economy. Users own generators, which
produce political capital at regular intervals. Capital is given to other users,
or spent on motions and on votes; every further vote of a user on a motion costs
more than the one before.

`src/` is the library. Its functions are verified with Verus: each states in its
contract what it returns, and the public proof functions whose names begin with
`law_` state what holds of the library as a whole.

| module   | what it holds                                                     |
|----------|-------------------------------------------------------------------|
| `text`   | decimal numerals and the comparison of texts                      |
| `number` | reading integers                                                  |
| `damm`   | check digits of motion numbers                                    |
| `ids`    | identifiers of users and messages                                 |
| `item`   | the kinds of property                                             |
| `user`   | finding the user that a command speaks of                         |
| `ledger` | transfers, fabrication and payouts                                |
| `give`   | giving property to another user                                   |
| `motion` | calling a motion                                                  |
| `ballot` | reading a command to vote                                         |
| `emoji`  | voting by reactions                                               |
| `vote`   | the session in which votes are cast                               |
| `tally`  | counting votes and deciding motions                               |
| `embed`  | what the bot posts                                                |
| `clock`  | when generators produce and when votes end                        |

`app/` connects the library to the chat service and to the database. It also
holds the price of a vote, which is computed in floating point.
