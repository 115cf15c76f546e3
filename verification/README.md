# quiche_recovery

Parts of the congestion control of a QUIC sender, written in Rust and verified
with Verus:

- `bbr2`: the DRAIN and PROBE_BW modes of BBRv2, over a model of the path.
- `resume` and `own_resume`: two state machines of careful resume, which let a
  new connection try the window that an earlier one had reached; `cr_metrics`
  decides which observations of a connection are kept for that.
- `server`, `client` and `mem_request`: the decisions of a download server and
  client that are used to measure the above.
- `dyadic`: single- and double-precision arithmetic on integers, in which gains
  and rates are computed; `time`: spans and clock readings.

The contracts are stated over mathematical states (`ResumeState`,
`OwnResumeState`, `CRMetricsState`, the transitions in `bbr2::transitions`). What
holds over series of calls is proved in `resume_laws`, `own_resume_laws` and
`bbr2::laws`, and at the end of the smaller modules.

`app/` reads clocks and files, opens sockets and writes logs. It is not verified.
