# embedded_course

The logic of a set of small STM32F103 programs, verified with Verus:

- `codgen`, `decoder`: a 32-bit pseudo-random code generator and the decoder
  of a message hidden in a word array, driven by the generator's values.
- `parse`: reading a `u32` the way `str::parse` does, and trimming white space.
- `guess`: the number guessing game (secret from `rand`).
- `console`, `blinky`: the serial command line of the blinking LED program,
  its start-up register plan, LED toggling and CPU load accounting.
- `printer`, `draft`: the spinning LED text printer: text layout, output
  register values, the main loop as a state machine, and start-up plans.
- `regs`: register operations as plain values.

`app/` carries the operations out: terminal I/O for the host programs, and
register access through `stm32f103xx`, `cortex-m` and
`cortex-m-semihosting` for the board.
