# coldsnap

The firmware of a signing device, as a library of verified decisions and a program
around it.

`src/` is the library. It decides what a keypress may authorise, which messages of a
coordinator reach the signer, what is kept before it is acknowledged, what a screen
must show before it can be answered, and how a quiz on a written backup runs. Every
function in it states what it does and is proved to do it with
[Verus](https://github.com/verus-lang/verus). What the library takes on trust are
`sha2`'s SHA-256, `linked_list_allocator`'s search for room and its account of where its
memory ends, and `core`'s reading of UTF-8; each of these calls stands behind one small
function whose comment says what is claimed of it.

| module | what it holds |
| --- | --- |
| `keypad`, `consent` | the pad, and what a key means on the screen that is up |
| `flow`, `desk`, `boot` | the screens that are paged through, what is on the glass, the loop |
| `messages`, `fault` | what passes between coordinator, signer and person |
| `screens` | which screen a prompt gets, and when it can be answered |
| `session`, `run` | what a message and a yes lead to, step by step |
| `outbox` | how a message becomes frames |
| `names`, `digest` | the record of the device's name, and what is hashed |
| `draws`, `quiz`, `ceremony` | random draws, the quiz on a backup, and what the coordinator hears of it |
| `arena`, `startup`, `text` | memory before and during use, and text |

`app/` is the program: the loop that does what the library says, and the board of the
device, which draws, scans, reads and writes. Everything in it that touches hardware or
the signer is built for the device only.

`tests/` runs the library.
