# polymarket-crypto

Trading of Polymarket's Up/Down markets on crypto assets, with the tools around it: a recorder of
market data, a log analyzer, a backtester, a replay, and the redemption of winnings.

`src/` is the library. Every item of it is verified with Verus: the state of a market, the limits of
risk, the pipeline from signals to orders, what each strategy decides, the reading of feeds and files,
the lines of the logs, and the screens' bookkeeping.

| Module | What it holds |
|---|---|
| `config`, `text`, `csv`, `json`, `number` | settings, and the reading and writing of values |
| `market` | finding the next market in what the Gamma API replies |
| `feeds`, `gateway` | messages of the exchanges, orders and their answers |
| `math` | rolling windows, sampling, regimes |
| `engine` | market state, order books, risk, the signal pipeline, the engine's cycle |
| `strategies` | when each strategy gives a signal |
| `telemetry`, `recorder`, `history` | what is written, and how it is read back |
| `analyzer`, `backtest`, `replay`, `redeem`, `probe` | the tools |

Prices and amounts are double-precision numbers. The library carries them as `number::Real`, a bit
pattern with a verified order, and decides by comparing them. Sums, products and the pricing model are
computed by the program in `app/`, which hands their results in.

`app/` is the program: sockets, files, the terminal, the clients of the exchange and of the chain, and
the floating-point model. `tests/` runs the library.
