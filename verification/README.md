# hermes

The core of a walk-forward backtester for trading signals, written in Verus: what
a trade costs, how it is managed, when one is entered, and what comes of it, each
function proved against its contract.

## Layout

| Module | What it holds |
|--------|---------------|
| `decimal` | Decimal numbers: what the arithmetic of `rust_decimal` returns, and when it is exact |
| `time` | Instants in UTC and the calendar facts that `chrono` reads off them |
| `text` | Digits, trimming, splitting and comparison of plain text |
| `domain` | Candles, signals, symbols, accounts |
| `friction` | Fill prices, gross profit and currency conversion |
| `killzone` | The hours in which entries are looked for |
| `indicators`, `trend` | ATR, EMA and the trend filters |
| `rules` | Everything that decides what the backtester does |
| `trade`, `manage` | An open trade, its 1R and 2R events, its stop and its target |
| `ledger` | Balance, drawdown, counts and the figures that sum up a run |
| `entry` | The filters on candles and signals, and the order |
| `simulation` | The walk forward over the candles |
| `report` | The lines that are printed |
| `config`, `feed` | Settings and data source, read from environment variables |
| `alpaca` | Requests to the Alpaca Market Data API, and its bars turned into candles |

`app/` is the program around the library: environment, HTTP, JSON and printing.
It needs the sibling crates of the workspace (`domain`, `ict`, `risk` and
`mt5_client`) for signal detection, position sizing and the MT5 bridge.

## Conventions

- A number is seen as a sign, a coefficient and a scale. Where `rust_decimal` has
  to round, its result has a name, of which no more is said than the sign that a
  sum and a quotient have; the laws about amounts are stated where nothing has to
  be rounded.
- A function of decimals that can fail returns `None` exactly where it does: a
  result does not fit, a divisor is zero (an average over no candles, no starting
  balance, no volume step), or a number cannot be written as asked.
- The public proof functions whose names begin with `law_` state what holds of
  several functions together.
