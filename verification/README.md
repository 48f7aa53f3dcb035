# cdma_bts

Receive-side control logic of a cdma2000 1x base station: the timing,
search, lock and bookkeeping decisions around the sample-level signal
processing, written in Verus and proved against their contracts.

The library (`src/`) holds the integer and bit-level logic:

- `rc1_rate`, `fqi`, `rate_order`, `rate_decision`: reverse traffic rates of
  radio configuration 1, the data burst randomizer, frame quality indicators
  and the CRCs behind them, the adaptive rate search order and the choice
  among decoded rate candidates.
- `rc1_decoder`, `rc1_aligner`: frame timing, preamble detection, locking and
  power control group measurement scheduling of the traffic decoder and the
  traffic frame aligner.
- `mobile_station`, `paging`: the sync-to-paging hand-over and the paging
  channel's half-frame timeline, alignment candidates and polarity choice.
- `peak_decimator`, `pn_align`, `pn_reference`, `tracker`: sample decimation,
  PN epoch alignment, reference construction and the matched-filter tracker
  state machine.
- `rake`, `access`, `pn_lc`, `finger_timing`, `delay_track`, `epl_fer`:
  finger management of the rake receiver, the staged access searcher and the
  joint PN×LC correlator, a finger's chip cursor and per-group measurement
  window, whole-chip delay tracking and the frame-error window that freezes
  early/late timing.
- `power_reference`: levels referenced to the ADC input.

Correlations, FFTs, filtering, demodulation and every other computation on
floating-point samples are done by the caller; the library is told what
they found (a peak, a delay, a decoded frame, which hypothesis is strongest)
and decides what happens next. `app/` holds such float stages around the
library: the matched-filter tracker, the rake receiver, the mobile station,
the paging channel, PN alignment, decimation and the pulse matched filter.

`tests/` exercises the library on concrete values.
